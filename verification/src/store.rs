//! The code store: a mapping from short codes to destination URLs with
//! atomic insert-if-absent semantics. This module holds the in-memory
//! variant; a persistent variant only has to meet the same contracts.
use vstd::prelude::*;
use crate::valid_code;

verus! {

/// A persisted link: a short code bound to a destination URL.
pub struct Link {
    pub code: String,
    pub url: String,
}

/// Why the code store refused an insert.
#[derive(Debug)]
pub enum InsertError {
    /// The code is already bound to some URL; nothing was written.
    DuplicateCode,
    /// The backing store failed for a reason other than a duplicate key.
    StorageFailure,
}

/// The map a sequence of links stands for, later bindings shadowing
/// earlier ones (with distinct codes nothing is shadowed).
spec fn map_of(links: Seq<Link>) -> Map<Seq<char>, Seq<char>>
    decreases links.len(),
{
    if links.len() == 0 {
        Map::empty()
    } else {
        map_of(links.drop_last()).insert(links.last().code@, links.last().url@)
    }
}

/// In-memory code store. Its view is the code-to-URL map it holds;
/// `wf` says the stored codes are pairwise distinct and valid.
pub struct MemStore {
    links: Vec<Link>,
}

impl View for MemStore {
    type V = Map<Seq<char>, Seq<char>>;

    closed spec fn view(&self) -> Map<Seq<char>, Seq<char>> {
        map_of(self.links@)
    }
}

proof fn lemma_map_of_domain(s: Seq<Link>, c: Seq<char>)
    ensures
        map_of(s).contains_key(c) <==> exists|i: int| 0 <= i < s.len() && s[i].code@ == c,
    decreases s.len(),
{
    if s.len() > 0 {
        lemma_map_of_domain(s.drop_last(), c);
        if map_of(s).contains_key(c) {
            if s.last().code@ == c {
                assert(s[s.len() - 1].code@ == c);
            } else {
                let i = choose|i: int| 0 <= i < s.drop_last().len() && s.drop_last()[i].code@ == c;
                assert(s[i].code@ == c);
            }
        }
        if exists|i: int| 0 <= i < s.len() && s[i].code@ == c {
            let i = choose|i: int| 0 <= i < s.len() && s[i].code@ == c;
            if i < s.len() - 1 {
                assert(s.drop_last()[i].code@ == c);
            }
        }
    }
}

proof fn lemma_map_of_index(s: Seq<Link>, i: int)
    requires
        0 <= i < s.len(),
        forall|p: int, q: int| 0 <= p < q < s.len() ==> s[p].code@ != s[q].code@,
    ensures
        map_of(s).contains_key(s[i].code@),
        map_of(s)[s[i].code@] == s[i].url@,
    decreases s.len(),
{
    if i == s.len() - 1 {
    } else {
        assert(s.drop_last()[i] == s[i]);
        lemma_map_of_index(s.drop_last(), i);
        assert(s.last().code@ != s[i].code@);
    }
}

impl MemStore {
    /// The stored codes are pairwise distinct and each is a valid code.
    pub closed spec fn wf(&self) -> bool {
        &&& forall|i: int, j: int|
            0 <= i < j < self.links@.len() ==> self.links@[i].code@ != self.links@[j].code@
        &&& forall|i: int| 0 <= i < self.links@.len() ==> valid_code(self.links@[i].code@)
    }

    /// Law: a well-formed store only ever holds valid codes — non-empty,
    /// at most `MAX_CODE_LEN` characters, drawn from the 62-symbol
    /// alphabet — and its map view binds each of them at most once.
    pub proof fn lemma_stored_codes_valid(&self)
        requires
            self.wf(),
        ensures
            forall|c: Seq<char>| self@.contains_key(c) ==> valid_code(c),
    {
        assert forall|c: Seq<char>| self@.contains_key(c) implies valid_code(c) by {
            lemma_map_of_domain(self.links@, c);
            let i = choose|i: int| 0 <= i < self.links@.len() && self.links@[i].code@ == c;
            assert(valid_code(self.links@[i].code@));
        }
    }

    /// An empty store.
    pub fn new() -> (s: MemStore)
        ensures
            s.wf(),
            s@ == Map::<Seq<char>, Seq<char>>::empty(),
    {
        MemStore { links: Vec::new() }
    }

    /// Index of the link holding `code`, if any.
    fn find(&self, code: &String) -> (r: Option<usize>)
        ensures
            match r {
                Some(i) => i < self.links@.len() && self.links@[i as int].code@ == code@,
                None => forall|i: int| 0 <= i < self.links@.len() ==> self.links@[i].code@ != code@,
            },
    {
        let n = self.links.len();
        let mut i: usize = 0;
        while i < n
            invariant
                n == self.links@.len(),
                i <= n,
                forall|j: int| 0 <= j < i ==> self.links@[j].code@ != code@,
            decreases n - i,
        {
            if self.links[i].code == *code {
                return Some(i);
            }
            i += 1;
        }
        None
    }

    /// The destination URL bound to `code`, if any. A single read with no
    /// side effect.
    pub fn lookup(&self, code: &String) -> (r: Option<String>)
        requires
            self.wf(),
        ensures
            match r {
                Some(url) => self@.contains_key(code@) && url@ == self@[code@],
                None => !self@.contains_key(code@),
            },
    {
        proof {
            lemma_map_of_domain(self.links@, code@);
        }
        match self.find(code) {
            Some(i) => {
                proof {
                    lemma_map_of_index(self.links@, i as int);
                }
                Some(self.links[i].url.clone())
            },
            None => None,
        }
    }

    /// Atomic insert-if-absent: binds `code` to `url` unless `code` is
    /// already bound, in which case nothing changes and the existing
    /// binding stays as it was.
    pub fn insert(&mut self, code: String, url: String) -> (r: Result<(), InsertError>)
        requires
            old(self).wf(),
            valid_code(code@),
        ensures
            final(self).wf(),
            match r {
                Ok(()) => !old(self)@.contains_key(code@) && final(self)@ == old(self)@.insert(
                    code@,
                    url@,
                ),
                Err(e) => e is DuplicateCode && old(self)@.contains_key(code@) && final(self)@
                    == old(self)@,
            },
    {
        proof {
            lemma_map_of_domain(self.links@, code@);
        }
        match self.find(&code) {
            Some(_) => Err(InsertError::DuplicateCode),
            None => {
                let ghost before = self.links@;
                self.links.push(Link { code, url });
                proof {
                    assert(self.links@.drop_last() =~= before);
                }
                Ok(())
            },
        }
    }
}

} // verus!
