use rtest::string_interner::{intern, InternedString, StringInterner};
use std::collections::HashMap;
use std::sync::Arc;

#[test]
fn test_string_interning() {
    let mut interner = StringInterner::new();

    let s1 = interner.intern("hello");
    let s2 = interner.intern("hello");
    let s3 = interner.intern("world");

    assert!(Arc::ptr_eq(&s1, &s2));
    assert!(!Arc::ptr_eq(&s1, &s3));

    assert_eq!(interner.len(), 2);
}

#[test]
fn test_global_interner() {
    let mut interner = StringInterner::new();
    interner.clear();

    let s1 = intern(&mut interner, "test");
    let s2 = intern(&mut interner, "test");
    let s3 = intern(&mut interner, "other");

    assert!(Arc::ptr_eq(&s1, &s2));
    assert!(!Arc::ptr_eq(&s1, &s3));
}

#[test]
fn test_interned_string() {
    let mut interner = StringInterner::new();
    let static_str = InternedString::from_static("static");
    let dynamic_str = InternedString::from_string(&mut interner, "dynamic");

    assert_eq!(static_str.as_str(), "static");
    assert_eq!(dynamic_str.as_str(), "dynamic");

    assert_eq!(static_str.as_str().to_string(), "static");
    assert_eq!(dynamic_str.as_str().to_string(), "dynamic");

    let another_static = InternedString::from_static("static");
    assert_eq!(static_str, another_static);
    assert_ne!(static_str, dynamic_str);
}

#[test]
fn test_intern_same_string_returns_same_arc() {
    let mut interner = StringInterner::new();
    let s1 = intern(&mut interner, "test_string");
    let s2 = intern(&mut interner, "test_string");

    assert!(Arc::ptr_eq(&s1, &s2));
    assert_eq!(s1, s2);
}

#[test]
fn test_intern_different_strings() {
    let mut interner = StringInterner::new();
    let s1 = intern(&mut interner, "string1");
    let s2 = intern(&mut interner, "string2");

    assert!(!Arc::ptr_eq(&s1, &s2));
    assert_ne!(s1, s2);
}

#[test]
fn test_intern_empty_string() {
    let mut interner = StringInterner::new();
    let s1 = intern(&mut interner, "");
    let s2 = intern(&mut interner, "");

    assert!(Arc::ptr_eq(&s1, &s2));
    assert_eq!(s1.as_str(), "");
}

#[test]
fn test_intern_unicode_strings() {
    let mut interner = StringInterner::new();
    let s1 = intern(&mut interner, "🦀 Rust is awesome! 测试");
    let s2 = intern(&mut interner, "🦀 Rust is awesome! 测试");

    assert!(Arc::ptr_eq(&s1, &s2));
    assert_eq!(s1, s2);
    assert_eq!(s1.as_str(), "🦀 Rust is awesome! 测试");
}

#[test]
fn test_interned_string_static_vs_dynamic() {
    let mut interner = StringInterner::new();
    let static_str = InternedString::from_static("static string");
    let dynamic_str = InternedString::from_string(&mut interner, "dynamic string");

    assert_eq!(static_str.as_str(), "static string");
    assert_eq!(dynamic_str.as_str(), "dynamic string");

    let another_static = InternedString::from_static("static string");
    assert_eq!(static_str, another_static);

    let another_dynamic = InternedString::from_string(&mut interner, "dynamic string");
    assert_eq!(dynamic_str, another_dynamic);
    assert_eq!(interner.len(), 1);
}

#[test]
fn test_interned_string_hash_consistency() {
    let mut interner = StringInterner::new();
    let mut map = HashMap::new();

    let key1 = InternedString::from_static("key");
    let key2 = InternedString::from_string(&mut interner, "key");

    map.insert(key1.clone(), 1);
    map.insert(key2.clone(), 2);

    assert_eq!(map.len(), 1);
    assert_eq!(map.get(&key1), Some(&2));
}

#[test]
fn test_memory_efficiency() {
    let mut interner = StringInterner::new();

    for _ in 0..1000 {
        interner.intern("repeated_string");
    }

    assert_eq!(interner.len(), 1);

    for i in 0..100 {
        interner.intern(&format!("unique_{}", i));
    }

    assert_eq!(interner.len(), 101);
}

#[test]
fn test_interner_clear() {
    let mut interner = StringInterner::new();

    interner.intern("test1");
    interner.intern("test2");
    assert_eq!(interner.len(), 2);

    interner.clear();
    assert_eq!(interner.len(), 0);

    interner.intern("test3");
    assert_eq!(interner.len(), 1);
}

#[test]
fn test_performance_comparison() {
    const ITERATIONS: usize = 2000;
    const UNIQUE_STRINGS: usize = 100;

    let mut interner = StringInterner::new();
    let mut cloned_strings = Vec::new();
    for i in 0..ITERATIONS {
        let s = format!("test_string_{}", i % UNIQUE_STRINGS);
        cloned_strings.push(s);
    }

    let mut interned_strings = Vec::new();
    for i in 0..ITERATIONS {
        let s = intern(&mut interner, &format!("test_string_{}", i % UNIQUE_STRINGS));
        interned_strings.push(s);
    }

    for i in 0..ITERATIONS {
        assert_eq!(&cloned_strings[i], interned_strings[i].as_ref(), "Mismatch at index {}", i);
    }

    let mut arc_count = 0;
    for i in 0..ITERATIONS {
        for j in i + 1..ITERATIONS {
            if i % UNIQUE_STRINGS == j % UNIQUE_STRINGS {
                if Arc::ptr_eq(&interned_strings[i], &interned_strings[j]) {
                    arc_count += 1;
                }
            }
        }
    }

    assert!(arc_count > 0);
    assert_eq!(interner.len(), UNIQUE_STRINGS);
}

#[test]
fn test_string_interning_in_functions() {
    let mut interner = StringInterner::new();
    let group_name = intern(&mut interner, "shared_group");
    let first = Arc::clone(&group_name);
    let second = intern(&mut interner, "shared_group");
    assert!(Arc::ptr_eq(&first, &second));
    assert_eq!(second.as_str(), "shared_group");
}

#[test]
fn test_lookup_finds_only_what_was_interned() {
    let mut interner = StringInterner::new();
    assert!(interner.lookup("db").is_none());
    let first = interner.intern("db");
    let found = interner.lookup("db").unwrap();
    assert_eq!(found.as_str(), "db");
    assert!(Arc::ptr_eq(&first, &found));
    assert!(interner.lookup("ui").is_none());
    assert!(interner.lookup("d").is_none());
    assert_eq!(interner.len(), 1);
}
