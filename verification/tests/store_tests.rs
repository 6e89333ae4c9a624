use zexec::store::{build_store, LoadError, LoadedFile};

fn file(name: &str, content: &str) -> LoadedFile {
    LoadedFile { name: name.to_string(), content: content.to_string() }
}

#[test]
fn loads_every_valid_pair() {
    let files = vec![
        file("alpha.zen", "Given nothing\nThen print the string 'a'"),
        file("alpha.keys", "{\"k\":1}"),
        file("beta.zen", "Given nothing\nThen print the string 'b'"),
        file("beta.keys", "{\"k\":2}"),
        file("README", "not a contract"),
    ];
    let store = build_store(&files).expect("two valid pairs must load");
    assert_eq!(store.len(), 2);
}

#[test]
fn unpaired_script_fails_the_load() {
    let files = vec![file("alpha.zen", "Given nothing")];
    match build_store(&files) {
        Err(e) => assert_eq!(e, LoadError::InvalidPair),
        Ok(_) => panic!("an unpaired script must fail the load"),
    }
}

#[test]
fn one_unpaired_script_fails_even_beside_valid_pairs() {
    let files = vec![
        file("alpha.zen", "script a"),
        file("alpha.keys", "keys a"),
        file("beta.zen", "script b"),
    ];
    assert!(build_store(&files).is_err());
}

#[test]
fn empty_script_fails_the_load() {
    let files = vec![file("alpha.zen", ""), file("alpha.keys", "keys")];
    assert!(build_store(&files).is_err());
}

#[test]
fn empty_keys_fail_the_load() {
    let files = vec![file("alpha.zen", "script"), file("alpha.keys", "")];
    assert!(build_store(&files).is_err());
}

#[test]
fn unrelated_files_are_ignored() {
    let files = vec![
        file("alpha.keys", "keys without a script"),
        file("notes.txt", "text"),
        file("alpha.zenn", "wrong extension"),
    ];
    let store = build_store(&files).expect("a listing without scripts loads empty");
    assert_eq!(store.len(), 0);
}

#[test]
fn lookup_returns_the_named_contract() {
    let files = vec![
        file("alpha.zen", "script a"),
        file("alpha.keys", "keys a"),
        file("beta.zen", "script b"),
        file("beta.keys", "keys b"),
    ];
    let store = build_store(&files).unwrap();
    let c = store.lookup(&"beta".to_string()).expect("beta is in the store");
    assert_eq!(c.name, "beta");
    assert_eq!(c.script, "script b");
    assert_eq!(c.keys, "keys b");
}

#[test]
fn lookup_of_an_absent_name_is_none() {
    let files = vec![file("alpha.zen", "script"), file("alpha.keys", "keys")];
    let store = build_store(&files).unwrap();
    assert!(store.lookup(&"alpha.zen".to_string()).is_none());
    assert!(store.lookup(&"gamma".to_string()).is_none());
}

#[test]
fn result_is_err_not_panic_on_bad_directory() {
    let files = vec![
        file("alpha.zen", "script a"),
        file("alpha.keys", "keys a"),
        file("orphan.zen", "script without keys"),
    ];
    match build_store(&files) {
        Err(LoadError::InvalidPair) => {}
        Ok(_) => panic!("an unpaired script must fail the load"),
    }
}
