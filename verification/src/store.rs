//! The output directory, modelled as a map from domain to file contents.
//!
//! One file per domain, named exactly by the domain string, holding the raw
//! response bytes with no transformation.  Duplicate domains in the input
//! list are not deduplicated; the later write wins, exactly as a second
//! `create`-and-write of the same path would on disk.  The binary around the
//! library mirrors each [`FileStore::persist`] with a real file write.

use vstd::prelude::*;

verus! {

/// An in-memory image of the output directory: the files written so far,
/// viewed as a map from domain name to file bytes.
pub struct FileStore {
    entries: Vec<(String, Vec<u8>)>,
}

impl View for FileStore {
    type V = Map<Seq<char>, Seq<u8>>;

    closed spec fn view(&self) -> Map<Seq<char>, Seq<u8>> {
        FileStore::map_of(self.entries@)
    }
}

impl FileStore {
    /// The map the writes so far describe: later writes shadow earlier ones.
    pub closed spec fn map_of(entries: Seq<(String, Vec<u8>)>) -> Map<Seq<char>, Seq<u8>>
        decreases entries.len(),
    {
        if entries.len() == 0 {
            Map::empty()
        } else {
            FileStore::map_of(entries.drop_last()).insert(entries.last().0@, entries.last().1@)
        }
    }

    /// How many writes the directory has taken, shadowed ones included.
    pub closed spec fn write_count(&self) -> nat {
        self.entries@.len()
    }

    /// A fresh, empty output directory.
    pub fn new() -> (s: FileStore)
        ensures
            s@ == Map::<Seq<char>, Seq<u8>>::empty(),
            s.write_count() == 0,
    {
        FileStore { entries: Vec::new() }
    }

    /// Write `bytes` verbatim under the domain's name, creating the file or
    /// truncating an earlier one.
    pub fn persist(&mut self, domain: &String, bytes: Vec<u8>)
        ensures
            final(self)@ == old(self)@.insert(domain@, bytes@),
            final(self).write_count() == old(self).write_count() + 1,
    {
        let ghost pre = self.entries@;
        self.entries.push((domain.clone(), bytes));
        proof {
            assert(self.entries@.drop_last() =~= pre);
        }
    }

    /// Read back the file written for `domain`, if any.
    pub fn read(&self, domain: &String) -> (r: Option<&Vec<u8>>)
        ensures
            match r {
                Some(bytes) => self@.contains_key(domain@) && bytes@ == self@[domain@],
                None => !self@.contains_key(domain@),
            },
    {
        let mut i = self.entries.len();
        proof {
            assert(self.entries@.take(self.entries@.len() as int) =~= self.entries@);
        }
        while i > 0
            invariant
                i <= self.entries.len(),
                FileStore::map_of(self.entries@).contains_key(domain@) == FileStore::map_of(
                    self.entries@.take(i as int),
                ).contains_key(domain@),
                FileStore::map_of(self.entries@).contains_key(domain@) ==> FileStore::map_of(
                    self.entries@,
                )[domain@] == FileStore::map_of(self.entries@.take(i as int))[domain@],
            decreases i,
        {
            i = i - 1;
            proof {
                assert(self.entries@.take(i + 1).drop_last() =~= self.entries@.take(i as int));
                assert(self.entries@.take(i + 1).last() == self.entries@[i as int]);
            }
            if self.entries[i].0.eq(domain) {
                return Some(&self.entries[i].1);
            }
        }
        proof {
            assert(self.entries@.take(0) =~= Seq::<(String, Vec<u8>)>::empty());
        }
        None
    }

    /// How many files have been written, shadowed earlier writes included.
    pub fn writes(&self) -> (n: usize)
        ensures
            n == self.write_count(),
            n == 0 ==> self@ == Map::<Seq<char>, Seq<u8>>::empty(),
    {
        proof {
            if self.entries@.len() == 0 {
                assert(FileStore::map_of(self.entries@) == Map::<Seq<char>, Seq<u8>>::empty());
            }
        }
        self.entries.len()
    }
}

/// Law: persisting bytes `b` for domain `d` and then reading `d` back yields
/// exactly `b`, byte for byte, whatever was in the directory before.  This is
/// the round trip [`FileStore::persist`] and [`FileStore::read`] promise
/// through their contracts over the directory map.
pub proof fn lemma_persist_read_round_trip(dir: Map<Seq<char>, Seq<u8>>, d: Seq<char>, b: Seq<u8>)
    ensures
        dir.insert(d, b).contains_key(d),
        dir.insert(d, b)[d] == b,
{
}

/// The path of the file written for one domain: `{dir}/{domain}`.
pub fn output_file_path(dir: &str, domain: &str) -> (p: String)
    ensures
        p@ == dir@ + "/"@ + domain@,
{
    let mut p = String::from_str(dir);
    p.append("/");
    p.append(domain);
    p
}

} // verus!
