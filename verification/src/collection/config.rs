//! What a collection pass can be told: where to look, and which names make
//! a file, a class or a function a test.

use crate::python_discovery::parametrize::{
    is_space, is_space_char, skip_spaces, trim_range, trimmed,
};
use crate::text::{
    copy_strings, find_char, index_of_char, split, split_on, str_eq, string_of_range, texts,
    to_chars,
};
use vstd::prelude::*;
use vstd::string::StringExecFns;

verus! {

/// The configuration of a collection pass. All lists hold glob patterns
/// except `testpaths`, which holds paths, and `ignore_patterns`, which
/// holds texts that an ignored path contains.
#[derive(Debug, Clone)]
pub struct CollectionConfig {
    /// Where to look when no path is given.
    pub testpaths: Vec<String>,
    /// The file names of test modules.
    pub python_files: Vec<String>,
    /// The names of test classes.
    pub python_classes: Vec<String>,
    /// The names of test functions.
    pub python_functions: Vec<String>,
    /// The names of directories that are not entered.
    pub norecursedirs: Vec<String>,
    /// A path that contains one of these texts is left out.
    pub ignore_patterns: Vec<String>,
}

/// The file names of test modules where none are configured.
pub open spec fn default_python_files() -> Seq<Seq<char>> {
    seq!["test_*.py"@, "*_test.py"@]
}

/// The names of directories that are not entered where none are
/// configured.
pub open spec fn default_norecursedirs() -> Seq<Seq<char>> {
    seq![
        "*.egg"@,
        ".*"@,
        "_darcs"@,
        "build"@,
        "CVS"@,
        "dist"@,
        "node_modules"@,
        "venv"@,
        "{arch}"@,
    ]
}

impl Default for CollectionConfig {
    fn default() -> (config: CollectionConfig)
        ensures
            config.testpaths@.len() == 0,
            texts(config.python_files@) == default_python_files(),
            texts(config.python_classes@) == seq!["Test*"@],
            texts(config.python_functions@) == seq!["test*"@],
            texts(config.norecursedirs@) == default_norecursedirs(),
            config.ignore_patterns@.len() == 0,
    {
        let mut python_files: Vec<String> = Vec::new();
        python_files.push(String::from_str("test_*.py"));
        python_files.push(String::from_str("*_test.py"));
        assert(texts(python_files@) =~= default_python_files());
        let mut python_classes: Vec<String> = Vec::new();
        python_classes.push(String::from_str("Test*"));
        assert(texts(python_classes@) =~= seq!["Test*"@]);
        let mut python_functions: Vec<String> = Vec::new();
        python_functions.push(String::from_str("test*"));
        assert(texts(python_functions@) =~= seq!["test*"@]);
        let mut norecursedirs: Vec<String> = Vec::new();
        norecursedirs.push(String::from_str("*.egg"));
        norecursedirs.push(String::from_str(".*"));
        norecursedirs.push(String::from_str("_darcs"));
        norecursedirs.push(String::from_str("build"));
        norecursedirs.push(String::from_str("CVS"));
        norecursedirs.push(String::from_str("dist"));
        norecursedirs.push(String::from_str("node_modules"));
        norecursedirs.push(String::from_str("venv"));
        norecursedirs.push(String::from_str("{arch}"));
        assert(texts(norecursedirs@) =~= default_norecursedirs());
        CollectionConfig {
            testpaths: Vec::new(),
            python_files,
            python_classes,
            python_functions,
            norecursedirs,
            ignore_patterns: Vec::new(),
        }
    }
}

impl CollectionConfig {
    /// Whether two configurations hold the same entries.
    pub open spec fn same_entries(self, other: CollectionConfig) -> bool {
        &&& self.testpaths@ == other.testpaths@
        &&& self.python_files@ == other.python_files@
        &&& self.python_classes@ == other.python_classes@
        &&& self.python_functions@ == other.python_functions@
        &&& self.norecursedirs@ == other.norecursedirs@
        &&& self.ignore_patterns@ == other.ignore_patterns@
    }

    /// A copy with the same entries.
    pub fn duplicate(&self) -> (r: CollectionConfig)
        ensures
            r.same_entries(*self),
    {
        CollectionConfig {
            testpaths: copy_strings(&self.testpaths),
            python_files: copy_strings(&self.python_files),
            python_classes: copy_strings(&self.python_classes),
            python_functions: copy_strings(&self.python_functions),
            norecursedirs: copy_strings(&self.norecursedirs),
            ignore_patterns: copy_strings(&self.ignore_patterns),
        }
    }
}

/// The first position at or after `i` that holds white space, or the
/// length of `s`.
pub open spec fn skip_word(s: Seq<char>, i: int) -> int
    decreases s.len() - i,
{
    if i < 0 || i >= s.len() {
        s.len() as int
    } else if is_space(s[i]) {
        i
    } else {
        skip_word(s, i + 1)
    }
}

/// The words of `s[from..]`: the runs of characters between white space.
pub open spec fn words_from(s: Seq<char>, from: int) -> Seq<Seq<char>>
    decreases s.len() - from,
{
    let start = skip_spaces(s, from);
    if from < 0 || start >= s.len() || start < from {
        Seq::empty()
    } else {
        let end = skip_word(s, start);
        if end <= start || end > s.len() {
            Seq::empty()
        } else {
            seq![s.subrange(start, end)] + words_from(s, end)
        }
    }
}

/// What reading the lines of a configuration file has found for one key.
pub struct Declared {
    /// The values declared so far.
    pub values: Seq<Seq<char>>,
    /// Whether the last declaration read was one of the key, so that an
    /// indented line continues it.
    pub open: bool,
}

/// Whether a line is a comment: its first character that is no white space
/// is `#` or `;`.
pub open spec fn is_comment_line(line: Seq<char>) -> bool {
    let start = skip_spaces(line, 0);
    start < line.len() && (line[start] == '#' || line[start] == ';')
}

/// What one more line makes of what was found.
///
/// A comment changes nothing. A line that starts with white space continues
/// the declaration before it. A line `name = words` declares the words for
/// `name`, in place of what was declared before. Any other line ends the
/// declaration before it.
pub open spec fn read_line(found: Declared, line: Seq<char>, key: Seq<char>) -> Declared {
    if is_comment_line(line) {
        found
    } else if line.len() > 0 && is_space(line[0]) {
        if found.open {
            Declared { values: found.values + words_from(line, 0), open: true }
        } else {
            found
        }
    } else {
        let eq = index_of_char(line, '=', 0);
        if eq < line.len() && trimmed(line, 0, eq) == key {
            Declared { values: words_from(line, eq + 1), open: true }
        } else {
            Declared { values: found.values, open: false }
        }
    }
}

/// What the first `n` lines declare for `key`.
pub open spec fn read_lines(lines: Seq<Seq<char>>, key: Seq<char>, n: int) -> Declared
    decreases n,
{
    if n <= 0 {
        Declared { values: Seq::empty(), open: false }
    } else {
        read_line(read_lines(lines, key, n - 1), lines[n - 1], key)
    }
}

/// The values that a configuration text declares for `key`.
pub open spec fn declared(text: Seq<char>, key: Seq<char>) -> Seq<Seq<char>> {
    let lines = split_on(text, '\n', 0);
    read_lines(lines, key, lines.len() as int).values
}

fn first_after_spaces(s: &Vec<char>, from: usize) -> (r: usize)
    requires
        from <= s.len(),
    ensures
        r as int == skip_spaces(s@, from as int),
        from <= r <= s.len(),
{
    let mut i: usize = from;
    while i < s.len() && is_space_char(s[i])
        invariant
            from <= i <= s.len(),
            skip_spaces(s@, from as int) == skip_spaces(s@, i as int),
        decreases s.len() - i,
    {
        i += 1;
    }
    i
}

fn first_space(s: &Vec<char>, from: usize) -> (r: usize)
    requires
        from <= s.len(),
    ensures
        r as int == skip_word(s@, from as int),
        from <= r <= s.len(),
{
    let mut i: usize = from;
    while i < s.len() && !is_space_char(s[i])
        invariant
            from <= i <= s.len(),
            skip_word(s@, from as int) == skip_word(s@, i as int),
        decreases s.len() - i,
    {
        i += 1;
    }
    i
}

/// Appends the words of `s[from..]` to `out`.
fn push_words(out: &mut Vec<String>, s: &Vec<char>, from: usize)
    requires
        from <= s.len(),
    ensures
        texts(final(out)@) == texts(old(out)@) + words_from(s@, from as int),
{
    let ghost start = texts(old(out)@);
    let mut at: usize = from;
    assert(texts(out@) + words_from(s@, at as int) =~= start + words_from(s@, from as int));
    loop
        invariant
            from <= at <= s.len(),
            start == texts(old(out)@),
            texts(out@) + words_from(s@, at as int) == start + words_from(s@, from as int),
        decreases s.len() - at,
    {
        let begin: usize = first_after_spaces(s, at);
        if begin >= s.len() {
            assert(words_from(s@, at as int) =~= Seq::<Seq<char>>::empty());
            assert(texts(out@) =~= start + words_from(s@, from as int));
            return ;
        }
        let end: usize = first_space(s, begin);
        if end <= begin {
            assert(words_from(s@, at as int) =~= Seq::<Seq<char>>::empty());
            assert(texts(out@) =~= start + words_from(s@, from as int));
            return ;
        }
        let ghost before = texts(out@);
        out.push(string_of_range(s, begin, end));
        assert(texts(out@) =~= before.push(s@.subrange(begin as int, end as int)));
        assert(words_from(s@, at as int) =~= seq![s@.subrange(begin as int, end as int)]
            + words_from(s@, end as int));
        at = end;
    }
}

/// The values that a configuration text declares for `key`.
///
/// The text is read line by line. A line `key = words` declares the words,
/// in place of what was declared for the key before; lines after it that
/// start with white space add their words. Comments, which start with `#`
/// or `;`, change nothing, and the declarations of other keys are ignored.
pub fn declared_values(text: &str, key: &str) -> (values: Vec<String>)
    ensures
        texts(values@) == declared(text@, key@),
{
    let lines = split(text, '\n');
    let ghost all = texts(lines@);
    let mut values: Vec<String> = Vec::new();
    let mut open: bool = false;
    let mut i: usize = 0;
    assert(texts(values@) =~= read_lines(all, key@, 0).values);
    while i < lines.len()
        invariant
            i <= lines.len(),
            all == texts(lines@),
            texts(values@) == read_lines(all, key@, i as int).values,
            open == read_lines(all, key@, i as int).open,
        decreases lines.len() - i,
    {
        let line = to_chars(lines[i].as_str());
        assert(all[i as int] == line@);
        let start: usize = first_after_spaces(&line, 0);
        let comment: bool = start < line.len() && (line[start] == '#' || line[start] == ';');
        if comment {
        } else if line.len() > 0 && is_space_char(line[0]) {
            if open {
                push_words(&mut values, &line, 0);
            }
        } else {
            let eq: usize = find_char(&line, '=', 0);
            let mut declares: bool = false;
            if eq < line.len() {
                let name = trim_range(&line, 0, eq);
                declares = str_eq(name.as_str(), key);
            }
            if declares {
                values = Vec::new();
                assert(texts(values@) =~= Seq::<Seq<char>>::empty());
                push_words(&mut values, &line, eq + 1);
                open = true;
            } else {
                open = false;
            }
        }
        i += 1;
    }
    values
}

impl CollectionConfig {
    /// The configuration that a configuration text declares: for each of
    /// the keys `testpaths`, `python_files`, `python_classes`,
    /// `python_functions`, `norecursedirs` and `ignore_patterns` the values
    /// declared, and the default where the text declares none. Unknown keys
    /// are ignored.
    pub fn from_text(text: &str) -> (config: CollectionConfig)
        ensures
            texts(config.testpaths@) == declared(text@, "testpaths"@),
            texts(config.python_files@) == chosen(
                declared(text@, "python_files"@),
                default_python_files(),
            ),
            texts(config.python_classes@) == chosen(
                declared(text@, "python_classes"@),
                seq!["Test*"@],
            ),
            texts(config.python_functions@) == chosen(
                declared(text@, "python_functions"@),
                seq!["test*"@],
            ),
            texts(config.norecursedirs@) == chosen(
                declared(text@, "norecursedirs"@),
                default_norecursedirs(),
            ),
            texts(config.ignore_patterns@) == declared(text@, "ignore_patterns"@),
    {
        let defaults = CollectionConfig::default();
        let python_files = declared_values(text, "python_files");
        let python_classes = declared_values(text, "python_classes");
        let python_functions = declared_values(text, "python_functions");
        let norecursedirs = declared_values(text, "norecursedirs");
        CollectionConfig {
            testpaths: declared_values(text, "testpaths"),
            python_files: if python_files.len() > 0 {
                python_files
            } else {
                defaults.python_files
            },
            python_classes: if python_classes.len() > 0 {
                python_classes
            } else {
                defaults.python_classes
            },
            python_functions: if python_functions.len() > 0 {
                python_functions
            } else {
                defaults.python_functions
            },
            norecursedirs: if norecursedirs.len() > 0 {
                norecursedirs
            } else {
                defaults.norecursedirs
            },
            ignore_patterns: declared_values(text, "ignore_patterns"),
        }
    }
}

/// The values declared, or the default where none are declared.
pub open spec fn chosen(values: Seq<Seq<char>>, default: Seq<Seq<char>>) -> Seq<Seq<char>> {
    if values.len() > 0 {
        values
    } else {
        default
    }
}

} // verus!
