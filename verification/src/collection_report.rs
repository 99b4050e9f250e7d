//! The text of the collection report: the errors first, then the summary,
//! then the items, then the warnings.

use crate::collection::error::{CollectionError, CollectionWarning};
use crate::collection_integration::{errors_view, CollectionErrors};
use crate::text::{decimal, join, join_strings, push_decimal, texts};
use vstd::prelude::*;
use vstd::string::StringExecFns;

verus! {

/// The line above the errors.
pub open spec fn errors_banner() -> Seq<char> {
    "===================================== ERRORS ======================================"@
}

/// The line above the warnings.
pub open spec fn warnings_banner() -> Seq<char> {
    "=============================== warnings summary ==============================="@
}

/// The line below the warnings.
pub open spec fn warnings_footer() -> Seq<char> {
    "-- Docs: https://docs.pytest.org/en/stable/how-to/capture-warnings.html"@
}

/// The header of one error, in bold red.
pub open spec fn error_header(nodeid: Seq<char>) -> Seq<char> {
    "\x1b[1;31m_ ERROR collecting "@ + nodeid + " _\x1b[0m"@
}

/// The line that tells what went wrong, in red.
pub open spec fn error_detail(error: CollectionError) -> Seq<char> {
    "\x1b[31m"@ + error.report_line() + "\x1b[0m"@
}

/// The line below the errors.
pub open spec fn errors_footer(count: nat) -> Seq<char> {
    "!!!!!!!!!!!!!!!!!!!!! Warning: "@ + decimal(count)
        + " errors during collection !!!!!!!!!!!!!!!!!!!!!"@
}

/// The lines of the first `n` errors: a header and a detail for each.
pub open spec fn error_lines(errors: Seq<(Seq<char>, CollectionError)>, n: int) -> Seq<Seq<char>>
    decreases n,
{
    if n <= 0 {
        Seq::empty()
    } else {
        error_lines(errors, n - 1) + seq![
            error_header(errors[n - 1].0),
            error_detail(errors[n - 1].1),
        ]
    }
}

/// The block of errors: nothing where there is none.
pub open spec fn error_block(errors: Seq<(Seq<char>, CollectionError)>) -> Seq<Seq<char>> {
    if errors.len() == 0 {
        Seq::empty()
    } else {
        seq![errors_banner()] + error_lines(errors, errors.len() as int) + seq![
            errors_footer(errors.len()),
        ]
    }
}

/// A count with its noun, in the plural unless the count is one.
pub open spec fn counted(prefix: Seq<char>, count: nat, noun: Seq<char>) -> Seq<char> {
    if count == 1 {
        prefix + decimal(count) + " "@ + noun
    } else {
        prefix + decimal(count) + " "@ + noun + "s"@
    }
}

/// The parts of the summary: one for each count that is not zero.
pub open spec fn summary_parts(items: nat, errors: nat, warnings: nat) -> Seq<Seq<char>> {
    (if items > 0 {
        seq![counted("collected "@, items, "item"@)]
    } else {
        Seq::empty()
    }) + (if errors > 0 {
        seq![counted(Seq::empty(), errors, "error"@)]
    } else {
        Seq::empty()
    }) + (if warnings > 0 {
        seq![counted(Seq::empty(), warnings, "warning"@)]
    } else {
        Seq::empty()
    })
}

/// The summary line.
pub open spec fn summary_line(items: nat, errors: nat, warnings: nat) -> Seq<char> {
    join(summary_parts(items, errors, warnings), " / "@)
}

/// The lines of the items: each item indented by two spaces.
pub open spec fn item_lines(nodes: Seq<Seq<char>>) -> Seq<Seq<char>> {
    Seq::new(nodes.len(), |i: int| "  "@ + nodes[i])
}

/// The lines of the warnings, each in yellow.
pub open spec fn warning_lines(warnings: Seq<CollectionWarning>) -> Seq<Seq<char>> {
    Seq::new(warnings.len(), |i: int| "\x1b[33m"@ + warnings[i].message() + "\x1b[0m"@)
}

/// The block of the summary and the items: a single line where nothing was
/// collected and nothing went wrong; else the summary, an empty line and
/// the items.
pub open spec fn summary_block(nodes: Seq<Seq<char>>, errors: nat, warnings: nat) -> Seq<Seq<char>> {
    if nodes.len() == 0 && errors == 0 && warnings == 0 {
        seq!["No tests collected."@]
    } else {
        seq![summary_line(nodes.len(), errors, warnings)] + (if nodes.len() > 0 {
            seq![Seq::<char>::empty()] + item_lines(nodes)
        } else {
            Seq::empty()
        })
    }
}

/// The block of warnings: nothing where there is none.
pub open spec fn warning_block(warnings: Seq<CollectionWarning>) -> Seq<Seq<char>> {
    if warnings.len() == 0 {
        Seq::empty()
    } else {
        seq![Seq::<char>::empty(), warnings_banner()] + warning_lines(warnings) + seq![
            warnings_footer(),
        ]
    }
}

/// The lines of the report.
pub open spec fn report_lines(
    nodes: Seq<Seq<char>>,
    errors: Seq<(Seq<char>, CollectionError)>,
    warnings: Seq<CollectionWarning>,
) -> Seq<Seq<char>> {
    error_block(errors) + summary_block(nodes, errors.len(), warnings.len()) + warning_block(
        warnings,
    )
}

fn counted_part(prefix: &str, count: usize, noun: &str) -> (part: String)
    ensures
        part@ == counted(prefix@, count as nat, noun@),
{
    let mut part = String::from_str(prefix);
    push_decimal(&mut part, count as u64);
    part.append(" ");
    part.append(noun);
    if count != 1 {
        part.append("s");
    }
    part
}

/// The lines of the collection report, in the order in which they are
/// shown.
pub fn render_collection_results(test_nodes: &Vec<String>, errors: &CollectionErrors) -> (lines:
    Vec<String>)
    ensures
        texts(lines@) == report_lines(
            texts(test_nodes@),
            errors_view(errors.errors@),
            errors.warnings@,
        ),
{
    let ghost failures = errors_view(errors.errors@);
    let mut lines: Vec<String> = Vec::new();
    assert(texts(lines@) =~= Seq::<Seq<char>>::empty());
    if errors.errors.len() > 0 {
        lines.push(
            String::from_str(
                "===================================== ERRORS ======================================",
            ),
        );
        let mut i: usize = 0;
        assert(texts(lines@) =~= seq![errors_banner()] + error_lines(failures, 0));
        while i < errors.errors.len()
            invariant
                i <= errors.errors.len(),
                failures == errors_view(errors.errors@),
                texts(lines@) == seq![errors_banner()] + error_lines(failures, i as int),
            decreases errors.errors.len() - i,
        {
            let ghost before = texts(lines@);
            assert(failures[i as int] == (errors.errors@[i as int].0@, errors.errors@[i as int].1));
            let mut header = String::from_str("\x1b[1;31m_ ERROR collecting ");
            header.append(errors.errors[i].0.as_str());
            header.append(" _\x1b[0m");
            let mut detail = String::from_str("\x1b[31m");
            detail.append(errors.errors[i].1.to_report_line().as_str());
            detail.append("\x1b[0m");
            lines.push(header);
            lines.push(detail);
            assert(texts(lines@) =~= before + seq![header@, detail@]);
            i += 1;
        }
        let ghost before = texts(lines@);
        let mut footer = String::from_str("!!!!!!!!!!!!!!!!!!!!! Warning: ");
        push_decimal(&mut footer, errors.errors.len() as u64);
        footer.append(" errors during collection !!!!!!!!!!!!!!!!!!!!!");
        lines.push(footer);
        assert(texts(lines@) =~= before + seq![footer@]);
    }
    assert(texts(lines@) =~= error_block(failures));
    let item_count: usize = test_nodes.len();
    let error_count: usize = errors.errors.len();
    let warning_count: usize = errors.warnings.len();
    if item_count == 0 && error_count == 0 && warning_count == 0 {
        let ghost before = texts(lines@);
        lines.push(String::from_str("No tests collected."));
        assert(texts(lines@) =~= before + seq!["No tests collected."@]);
    } else {
        let mut parts: Vec<String> = Vec::new();
        if item_count > 0 {
            parts.push(counted_part("collected ", item_count, "item"));
        }
        if error_count > 0 {
            parts.push(counted_part("", error_count, "error"));
        }
        if warning_count > 0 {
            parts.push(counted_part("", warning_count, "warning"));
        }
        proof {
            reveal_strlit("");
            assert(""@ =~= Seq::<char>::empty());
            assert(texts(parts@) =~= summary_parts(
                item_count as nat,
                error_count as nat,
                warning_count as nat,
            ));
        }
        let ghost before = texts(lines@);
        let summary = join_strings(&parts, " / ");
        lines.push(summary);
        assert(texts(lines@) =~= before + seq![summary@]);
        if item_count > 0 {
            let ghost head = texts(lines@);
            lines.push(String::new());
            let mut k: usize = 0;
            assert(texts(lines@) =~= head + seq![Seq::<char>::empty()] + item_lines(
                texts(test_nodes@),
            ).take(0));
            while k < test_nodes.len()
                invariant
                    k <= test_nodes.len(),
                    texts(lines@) == head + seq![Seq::<char>::empty()] + item_lines(
                        texts(test_nodes@),
                    ).take(k as int),
                decreases test_nodes.len() - k,
            {
                let ghost now = texts(lines@);
                let mut line = String::from_str("  ");
                line.append(test_nodes[k].as_str());
                lines.push(line);
                assert(texts(lines@) =~= now.push(line@));
                assert(item_lines(texts(test_nodes@)).take(k + 1) =~= item_lines(
                    texts(test_nodes@),
                ).take(k as int).push(line@));
                k += 1;
            }
            assert(item_lines(texts(test_nodes@)).take(test_nodes.len() as int) =~= item_lines(
                texts(test_nodes@),
            ));
        }
    }
    assert(texts(lines@) =~= error_block(failures) + summary_block(
        texts(test_nodes@),
        failures.len(),
        errors.warnings@.len(),
    ));
    if warning_count > 0 {
        let ghost head = texts(lines@);
        lines.push(String::new());
        lines.push(
            String::from_str(
                "=============================== warnings summary ===============================",
            ),
        );
        let mut k: usize = 0;
        assert(texts(lines@) =~= head + seq![Seq::<char>::empty(), warnings_banner()]
            + warning_lines(errors.warnings@).take(0));
        while k < errors.warnings.len()
            invariant
                k <= errors.warnings.len(),
                texts(lines@) == head + seq![Seq::<char>::empty(), warnings_banner()]
                    + warning_lines(errors.warnings@).take(k as int),
            decreases errors.warnings.len() - k,
        {
            let ghost now = texts(lines@);
            let mut line = String::from_str("\x1b[33m");
            line.append(errors.warnings[k].to_string().as_str());
            line.append("\x1b[0m");
            lines.push(line);
            assert(texts(lines@) =~= now.push(line@));
            assert(warning_lines(errors.warnings@).take(k + 1) =~= warning_lines(
                errors.warnings@,
            ).take(k as int).push(line@));
            k += 1;
        }
        assert(warning_lines(errors.warnings@).take(errors.warnings.len() as int)
            =~= warning_lines(errors.warnings@));
        let ghost now = texts(lines@);
        lines.push(
            String::from_str(
                "-- Docs: https://docs.pytest.org/en/stable/how-to/capture-warnings.html",
            ),
        );
        assert(texts(lines@) =~= now + seq![warnings_footer()]);
    }
    lines
}

/// The first `n` lines, each ended by a line feed.
pub open spec fn lines_text(lines: Seq<Seq<char>>, n: int) -> Seq<char>
    decreases n,
{
    if n <= 0 {
        Seq::empty()
    } else {
        lines_text(lines, n - 1) + lines[n - 1] + seq!['\n']
    }
}

/// The text of the list of uncertain files: one path on each line, every
/// line ended by a line feed, in the order given.
pub fn render_uncertain_files(files: &Vec<String>) -> (text: String)
    ensures
        text@ == lines_text(texts(files@), files@.len() as int),
{
    let mut text = String::new();
    let mut i: usize = 0;
    while i < files.len()
        invariant
            i <= files.len(),
            text@ == lines_text(texts(files@), i as int),
        decreases files.len() - i,
    {
        assert(texts(files@)[i as int] == files@[i as int]@);
        text.append(files[i].as_str());
        text.append("\n");
        proof {
            reveal_strlit("\n");
            assert("\n"@ =~= seq!['\n']);
        }
        i += 1;
    }
    text
}

} // verus!
