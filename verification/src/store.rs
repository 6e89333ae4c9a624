use vstd::prelude::*;
use vstd::string::*;

verus! {

/// One file read from the contracts directory at startup: its bare name (no
/// directory part) and its textual content.
pub struct LoadedFile {
    pub name: String,
    pub content: String,
}

/// One loaded contract: a unit of executable logic for the engine,
/// identified by name, with its script and its key material.
pub struct Contract {
    pub name: String,
    pub script: String,
    pub keys: String,
}

/// Loading the contracts directory failed: some script file has no key
/// sibling, or a pair has empty content. The process must not start on such
/// a directory.
#[derive(Clone, Copy, Debug, PartialEq, Eq)]
pub enum LoadError {
    InvalidPair,
}

/// Whether a file name marks a script: it ends in the script extension.
pub open spec fn is_script_name(s: Seq<char>) -> bool {
    &&& s.len() >= 4
    &&& s[s.len() - 4] == '.'
    &&& s[s.len() - 3] == 'z'
    &&& s[s.len() - 2] == 'e'
    &&& s[s.len() - 1] == 'n'
}

/// The contract name of a script file: its name with the extension cut off.
pub open spec fn script_base(s: Seq<char>) -> Seq<char> {
    s.subrange(0, s.len() - 4)
}

/// The name of the key-material sibling that a script of the given base name
/// must bring.
pub open spec fn keys_name_for(base: Seq<char>) -> Seq<char> {
    base + ".keys"@
}

/// A directory listing names each entry once.
pub open spec fn distinct_names(files: Seq<LoadedFile>) -> bool {
    forall|i: int, j: int|
        0 <= i < j < files.len() ==> files[i].name@ != files[j].name@
}

/// Whether the listing holds a file of the given name.
pub open spec fn has_file(files: Seq<LoadedFile>, name: Seq<char>) -> bool {
    exists|i: int| 0 <= i < files.len() && files[i].name@ == name
}

/// The content of the file of the given name (meaningful when names are
/// distinct and the file is present).
pub open spec fn file_content(files: Seq<LoadedFile>, name: Seq<char>) -> Seq<char> {
    files[choose|i: int| 0 <= i < files.len() && files[i].name@ == name].content@
}

/// Whether the script file at the given position can become a contract: its
/// key sibling is in the listing, and neither file is empty.
pub open spec fn script_ok(files: Seq<LoadedFile>, i: int) -> bool {
    &&& has_file(files, keys_name_for(script_base(files[i].name@)))
    &&& files[i].content@.len() > 0
    &&& file_content(files, keys_name_for(script_base(files[i].name@))).len() > 0
}

/// Whether every script file in the listing can become a contract.
pub open spec fn all_scripts_ok(files: Seq<LoadedFile>) -> bool {
    forall|i: int|
        0 <= i < files.len() && is_script_name(#[trigger] files[i].name@) ==> script_ok(files, i)
}

/// How many of the first `n` files are script files.
pub open spec fn script_count(files: Seq<LoadedFile>, n: int) -> nat
    decreases n,
{
    if n <= 0 {
        0
    } else {
        script_count(files, n - 1) + (if is_script_name(files[n - 1].name@) {
            1nat
        } else {
            0nat
        })
    }
}

/// In a listing with distinct names, the file found at a position is the one
/// the name resolves to.
proof fn lemma_file_content_at(files: Seq<LoadedFile>, j: int)
    requires
        distinct_names(files),
        0 <= j < files.len(),
    ensures
        has_file(files, files[j].name@),
        file_content(files, files[j].name@) == files[j].content@,
{
    let name = files[j].name@;
    assert(has_file(files, name));
    let i = choose|i: int| 0 <= i < files.len() && files[i].name@ == name;
    if i < j {
        assert(files[i].name@ != files[j].name@);
    } else if j < i {
        assert(files[j].name@ != files[i].name@);
    }
}

/// Two script names with the same base are the same name: a script's base
/// determines it.
proof fn lemma_script_name_of_base(s1: Seq<char>, s2: Seq<char>)
    requires
        is_script_name(s1),
        is_script_name(s2),
        script_base(s1) == script_base(s2),
    ensures
        s1 == s2,
{
    let b1 = script_base(s1);
    let b2 = script_base(s2);
    assert(b1.len() == s1.len() - 4);
    assert(b2.len() == s2.len() - 4);
    assert forall|k: int| 0 <= k < s1.len() implies s1[k] == s2[k] by {
        if k < s1.len() - 4 {
            assert(s1[k] == b1[k]);
            assert(s2[k] == b2[k]);
        }
    }
    assert(s1 =~= s2);
}

/// Decides whether a file name marks a script.
pub fn has_zen_suffix(name: &str) -> (r: bool)
    ensures
        r == is_script_name(name@),
{
    let n = name.unicode_len();
    if n < 4 {
        return false;
    }
    name.get_char(n - 4) == '.' && name.get_char(n - 3) == 'z' && name.get_char(n - 2) == 'e'
        && name.get_char(n - 1) == 'n'
}

/// Finds the position of the file of the given name, if the listing has one.
fn find_file(files: &Vec<LoadedFile>, name: &String) -> (r: Option<usize>)
    ensures
        r matches Some(j) ==> j < files@.len() && files@[j as int].name@ == name@,
        r is None ==> !has_file(files@, name@),
{
    let mut i: usize = 0;
    while i < files.len()
        invariant
            i <= files@.len(),
            forall|k: int| 0 <= k < i ==> files@[k].name@ != name@,
        decreases files@.len() - i,
    {
        if files[i].name == *name {
            return Some(i);
        }
        i = i + 1;
    }
    None
}

/// The immutable store of contracts, built once at startup from the
/// contracts directory and read-only thereafter.
pub struct ContractStore {
    contracts: Vec<Contract>,
}

impl ContractStore {
    /// How many contracts the store holds.
    pub closed spec fn spec_len(&self) -> nat {
        self.contracts@.len()
    }

    /// Whether a contract of the given name is in the store.
    pub closed spec fn contains_name(&self, name: Seq<char>) -> bool {
        exists|i: int|
            0 <= i < self.contracts@.len() && self.contracts@[i].name@ == name
    }

    /// The position the given name resolves to.
    closed spec fn idx_of(&self, name: Seq<char>) -> int {
        choose|i: int| 0 <= i < self.contracts@.len() && self.contracts@[i].name@ == name
    }

    /// The script of the contract of the given name.
    pub closed spec fn spec_script(&self, name: Seq<char>) -> Seq<char> {
        self.contracts@[self.idx_of(name)].script@
    }

    /// The key material of the contract of the given name.
    pub closed spec fn spec_keys(&self, name: Seq<char>) -> Seq<char> {
        self.contracts@[self.idx_of(name)].keys@
    }

    /// Well-formedness: each name appears once, and every contract has
    /// non-empty script and key material.
    pub closed spec fn wf(&self) -> bool {
        &&& forall|i: int, j: int|
            0 <= i < j < self.contracts@.len() ==> self.contracts@[i].name@
                != self.contracts@[j].name@
        &&& forall|i: int|
            0 <= i < self.contracts@.len() ==> (#[trigger] self.contracts@[i]).script@.len() > 0
                && self.contracts@[i].keys@.len() > 0
    }

    /// In a well-formed store, the contract found at a position is the one
    /// its name resolves to.
    proof fn lemma_at_idx(&self, m: int)
        requires
            self.wf(),
            0 <= m < self.contracts@.len(),
        ensures
            self.contains_name(self.contracts@[m].name@),
            self.idx_of(self.contracts@[m].name@) == m,
    {
        let name = self.contracts@[m].name@;
        assert(self.contains_name(name));
        let i = self.idx_of(name);
        if i < m {
            assert(self.contracts@[i].name@ != self.contracts@[m].name@);
        } else if m < i {
            assert(self.contracts@[m].name@ != self.contracts@[i].name@);
        }
    }

    /// How many contracts the store holds.
    pub fn len(&self) -> (n: usize)
        ensures
            n == self.spec_len(),
    {
        self.contracts.len()
    }

    /// Looks a contract up by name. `Some` exactly when the store holds the
    /// name, and then the returned contract is that name's, with its
    /// non-empty script and key material.
    pub fn lookup<'a>(&'a self, name: &String) -> (r: Option<&'a Contract>)
        requires
            self.wf(),
        ensures
            r matches Some(c) ==> self.contains_name(name@) && c.name@ == name@ && c.script@
                == self.spec_script(name@) && c.keys@ == self.spec_keys(name@) && c.script@.len()
                > 0 && c.keys@.len() > 0,
            r is None ==> !self.contains_name(name@),
    {
        let mut i: usize = 0;
        while i < self.contracts.len()
            invariant
                i <= self.contracts@.len(),
                self.wf(),
                forall|k: int| 0 <= k < i ==> self.contracts@[k].name@ != name@,
            decreases self.contracts@.len() - i,
        {
            if self.contracts[i].name == *name {
                proof {
                    self.lemma_at_idx(i as int);
                }
                return Some(&self.contracts[i]);
            }
            i = i + 1;
        }
        None
    }
}


/// Builds the store from the startup listing of the contracts directory.
/// Every file whose name ends in the script extension must bring a key
/// sibling (same base name, key extension), and both must be non-empty; any
/// script without that fails the whole load, so the process does not start
/// on a partially loaded store. Files of other names are ignored. On
/// success the store holds exactly one contract per script file, under the
/// script's base name, with that script and its sibling's key material.
/// The listing names each directory entry once.
#[verifier::rlimit(50)]
pub fn build_store(files: &Vec<LoadedFile>) -> (r: Result<ContractStore, LoadError>)
    requires
        distinct_names(files@),
    ensures
        (r is Ok) <==> all_scripts_ok(files@),
        r matches Ok(store) ==> ({
            &&& store.wf()
            &&& store.spec_len() == script_count(files@, files@.len() as int)
            &&& forall|i: int|
                0 <= i < files@.len() && is_script_name(#[trigger] files@[i].name@)
                    ==> store.contains_name(script_base(files@[i].name@))
                    && store.spec_script(script_base(files@[i].name@)) == files@[i].content@
                    && store.spec_keys(script_base(files@[i].name@)) == file_content(
                    files@,
                    keys_name_for(script_base(files@[i].name@)),
                )
            &&& forall|n: Seq<char>|
                store.contains_name(n) ==> exists|i: int|
                    0 <= i < files@.len() && is_script_name(#[trigger] files@[i].name@)
                        && script_base(files@[i].name@) == n
        }),
{
    let mut contracts: Vec<Contract> = Vec::new();
    let ghost mut srcs: Seq<int> = Seq::empty();
    let n = files.len();
    let mut idx: usize = 0;
    while idx < n
        invariant
            n == files@.len(),
            idx <= n,
            distinct_names(files@),
            contracts@.len() == script_count(files@, idx as int),
            srcs.len() == contracts@.len(),
            forall|k: int|
                0 <= k < idx && is_script_name(#[trigger] files@[k].name@) ==> script_ok(
                    files@,
                    k,
                ),
            forall|k: int|
                0 <= k < idx && is_script_name(#[trigger] files@[k].name@) ==> exists|m: int|
                    0 <= m < contracts@.len() && (#[trigger] contracts@[m]).name@ == script_base(
                        files@[k].name@,
                    ),
            forall|m: int|
                0 <= m < contracts@.len() ==> 0 <= #[trigger] srcs[m] < idx && is_script_name(
                    files@[srcs[m]].name@,
                ) && contracts@[m].name@ == script_base(files@[srcs[m]].name@)
                    && contracts@[m].script@ == files@[srcs[m]].content@ && contracts@[m].keys@
                    == file_content(files@, keys_name_for(script_base(files@[srcs[m]].name@))),
            forall|m1: int, m2: int|
                0 <= m1 < m2 < contracts@.len() ==> contracts@[m1].name@ != contracts@[m2].name@,
        decreases n - idx,
    {
        let name_str = files[idx].name.as_str();
        if has_zen_suffix(name_str) {
            let ln = name_str.unicode_len();
            let base = name_str.substring_char(0, ln - 4);
            let keys_name = String::from_str(base).concat(".keys");
            proof {
                assert(keys_name@ == keys_name_for(script_base(files@[idx as int].name@)));
            }
            match find_file(files, &keys_name) {
                Option::Some(j) => {
                    if files[idx].content.as_str().is_empty()
                        || files[j].content.as_str().is_empty() {
                        proof {
                            lemma_file_content_at(files@, j as int);
                            assert(!script_ok(files@, idx as int));
                        }
                        return Err(LoadError::InvalidPair);
                    }
                    let c = Contract {
                        name: String::from_str(base),
                        script: files[idx].content.clone(),
                        keys: files[j].content.clone(),
                    };
                    proof {
                        lemma_file_content_at(files@, j as int);
                        assert(script_ok(files@, idx as int));
                        assert forall|m: int| 0 <= m < contracts@.len() implies contracts@[m].name@
                            != c.name@ by {
                            if contracts@[m].name@ == c.name@ {
                                lemma_script_name_of_base(
                                    files@[srcs[m]].name@,
                                    files@[idx as int].name@,
                                );
                            }
                        }
                        assert(script_count(files@, idx as int + 1) == script_count(
                            files@,
                            idx as int,
                        ) + 1);
                    }
                    let ghost prev = contracts@;
                    contracts.push(c);
                    proof {
                        srcs = srcs.push(idx as int);
                        assert(contracts@ == prev.push(c));
                        assert(contracts@[contracts@.len() - 1] == c);
                        assert forall|k: int|
                            0 <= k < idx + 1 && is_script_name(#[trigger] files@[k].name@) implies
                        exists|m: int|
                            0 <= m < contracts@.len() && (#[trigger] contracts@[m]).name@
                                == script_base(files@[k].name@) by {
                            if k == idx {
                                let m = contracts@.len() - 1;
                                assert(0 <= m < contracts@.len() && (contracts@[m]).name@
                                    == script_base(files@[k].name@));
                            } else {
                                let m0 = choose|m: int|
                                    0 <= m < prev.len() && (#[trigger] prev[m]).name@
                                        == script_base(files@[k].name@);
                                assert(contracts@[m0] == prev[m0]);
                            }
                        }
                        assert forall|m: int| 0 <= m < contracts@.len() implies 0 <= (
                        #[trigger] srcs[m]) < idx + 1 && is_script_name(files@[srcs[m]].name@)
                            && contracts@[m].name@ == script_base(files@[srcs[m]].name@)
                            && contracts@[m].script@ == files@[srcs[m]].content@
                            && contracts@[m].keys@ == file_content(
                            files@,
                            keys_name_for(script_base(files@[srcs[m]].name@)),
                        ) by {
                            if m < contracts@.len() - 1 {
                                assert(contracts@[m] == prev[m]);
                            } else {
                                assert(contracts@[m] == c);
                                assert(srcs[m] == idx as int);
                            }
                        }
                        assert forall|m1: int, m2: int|
                            0 <= m1 < m2 < contracts@.len() implies contracts@[m1].name@
                            != contracts@[m2].name@ by {
                            if m2 == contracts@.len() - 1 {
                                assert(contracts@[m1] == prev[m1]);
                            }
                        }
                    }
                }
                Option::None => {
                    proof {
                        assert(!script_ok(files@, idx as int));
                    }
                    return Err(LoadError::InvalidPair);
                }
            }
        } else {
            proof {
                assert(script_count(files@, idx as int + 1) == script_count(files@, idx as int));
            }
        }
        idx = idx + 1;
    }
    let store = ContractStore { contracts };
    proof {
        assert forall|m: int| 0 <= m < store.contracts@.len() implies (
        #[trigger] store.contracts@[m]).script@.len() > 0 && store.contracts@[m].keys@.len()
            > 0 by {
            assert(0 <= srcs[m] < n);
            assert(script_ok(files@, srcs[m]));
        }
        assert(store.wf());
        assert forall|i: int|
            0 <= i < files@.len() && is_script_name(#[trigger] files@[i].name@) implies
        store.contains_name(script_base(files@[i].name@)) && store.spec_script(
            script_base(files@[i].name@),
        ) == files@[i].content@ && store.spec_keys(script_base(files@[i].name@)) == file_content(
            files@,
            keys_name_for(script_base(files@[i].name@)),
        ) by {
            let m = choose|m: int|
                0 <= m < store.contracts@.len() && (#[trigger] store.contracts@[m]).name@
                    == script_base(files@[i].name@);
            store.lemma_at_idx(m);
            assert(store.idx_of(script_base(files@[i].name@)) == m);
            let k = srcs[m];
            assert(is_script_name(files@[k].name@));
            lemma_script_name_of_base(files@[k].name@, files@[i].name@);
        }
        assert forall|nm: Seq<char>| store.contains_name(nm) implies exists|i: int|
            0 <= i < files@.len() && is_script_name(#[trigger] files@[i].name@) && script_base(
                files@[i].name@,
            ) == nm by {
            let m = choose|m: int|
                0 <= m < store.contracts@.len() && store.contracts@[m].name@ == nm;
            let k = srcs[m];
            assert(0 <= k < files@.len() && is_script_name(files@[k].name@) && script_base(
                files@[k].name@,
            ) == nm);
        }
    }
    Ok(store)
}

} // verus!
