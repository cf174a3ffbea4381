//! The vault entry store: each title maps to one ciphertext blob.
use vstd::prelude::*;
use crate::title_map::TitleMap;

verus! {

/// The characters of each stored string.
pub open spec fn texts(m: Map<Seq<char>, String>) -> Map<Seq<char>, Seq<char>> {
    m.map_values(|s: String| s@)
}

/// Ciphertext blobs keyed by title; the last write to a title wins.
pub struct VaultStore {
    entries: TitleMap<String>,
}

impl View for VaultStore {
    type V = Map<Seq<char>, Seq<char>>;

    closed spec fn view(&self) -> Map<Seq<char>, Seq<char>> {
        texts(self.entries@)
    }
}

impl VaultStore {
    /// The internal list stands for the map.
    pub closed spec fn wf(&self) -> bool {
        self.entries.wf()
    }

    /// A store with no entries.
    pub fn new() -> (r: Self)
        ensures
            r.wf(),
            r@ == Map::<Seq<char>, Seq<char>>::empty(),
    {
        let r = VaultStore { entries: TitleMap::new() };
        assert(r@ =~= Map::<Seq<char>, Seq<char>>::empty());
        r
    }

    /// Stores `ciphertext` under `title`, replacing any earlier one.
    pub fn put(&mut self, title: String, ciphertext: String)
        requires
            old(self).wf(),
        ensures
            final(self).wf(),
            final(self)@ == old(self)@.insert(title@, ciphertext@),
    {
        let ghost pre = self.entries@;
        let ghost t = title@;
        let ghost c = ciphertext@;
        self.entries.insert(title, ciphertext);
        assert(self@ =~= texts(pre).insert(t, c));
    }

    /// The ciphertext stored under `title`.
    pub fn get(&self, title: &str) -> (r: Option<String>)
        requires
            self.wf(),
        ensures
            r is Some <==> self@.contains_key(title@),
            r matches Some(c) ==> self@[title@] == c@,
    {
        match self.entries.get(title) {
            Some(c) => Some(c.clone()),
            None => None,
        }
    }

    /// Removes the entry of `title`; tells whether there was one.
    pub fn delete(&mut self, title: &str) -> (r: bool)
        requires
            old(self).wf(),
        ensures
            final(self).wf(),
            final(self)@ == old(self)@.remove(title@),
            r == old(self)@.contains_key(title@),
    {
        let ghost pre = self.entries@;
        let r = self.entries.remove(title);
        assert(self@ =~= texts(pre).remove(title@));
        r
    }

    /// Every title and its ciphertext, each title once.
    pub fn entries(&self) -> (r: Vec<(String, String)>)
        requires
            self.wf(),
        ensures
            forall|i: int| 0 <= i < r@.len() ==> #[trigger] self@.contains_key(r@[i].0@)
                && self@[r@[i].0@] == r@[i].1@,
            forall|k: Seq<char>| #[trigger] self@.contains_key(k) ==> exists|i: int| 0 <= i < r@.len() && #[trigger] r@[i].0@ == k,
            forall|i: int, j: int| 0 <= i < r@.len() && 0 <= j < r@.len() && i != j ==> #[trigger] r@[i].0@ != #[trigger] r@[j].0@,
    {
        let titles = self.entries.titles();
        let mut r: Vec<(String, String)> = Vec::new();
        let mut i: usize = 0;
        while i < titles.len()
            invariant
                self.wf(),
                i <= titles@.len(),
                r@.len() == i,
                forall|j: int| 0 <= j < titles@.len() ==> #[trigger] self@.contains_key(titles@[j]@),
                forall|j: int| 0 <= j < i ==> #[trigger] r@[j].0@ == titles@[j]@ && self@[titles@[j]@] == r@[j].1@,
            decreases titles@.len() - i,
        {
            let title = titles[i].clone();
            assert(self@.contains_key(titles@[i as int]@));
            let c = match self.get(title.as_str()) {
                Some(c) => c,
                None => String::new(),
            };
            r.push((title, c));
            i = i + 1;
        }
        assert forall|k: Seq<char>| #[trigger] self@.contains_key(k) implies exists|j: int| 0 <= j < r@.len() && #[trigger] r@[j].0@ == k by {
            assert(self.entries@.contains_key(k));
            let m = choose|m: int| 0 <= m < titles@.len() && #[trigger] titles@[m]@ == k;
            assert(r@[m].0@ == k);
        }
        assert forall|a: int, b: int| 0 <= a < r@.len() && 0 <= b < r@.len() && a != b implies #[trigger] r@[a].0@ != #[trigger] r@[b].0@ by {
            assert(titles@[a]@ != titles@[b]@);
        }
        r
    }
}

} // verus!

verus! {

/// A blob saved under a title and read back decrypts to the plaintext that
/// was encrypted, under the same passphrase.
pub proof fn lemma_store_integrity(
    pre: Map<Seq<char>, Seq<char>>,
    title: Seq<char>,
    passphrase: Seq<char>,
    nonce: Seq<u8>,
    plain: Seq<char>,
    r: Option<Seq<char>>,
)
    requires
        nonce.len() == crate::cipher::NONCE_LEN,
        crate::cipher::sealable(plain),
        crate::cipher::decrypt_outcome(
            pre.insert(title, crate::cipher::sealed_blob(passphrase, nonce, plain))[title],
            passphrase,
            r,
        ),
    ensures
        r == Some(plain),
{
}

} // verus!
