//! The domain source: the ordered-then-shuffled list of domains to visit.
//!
//! The list text is a headerless two-column record format, one record per
//! line: an identifier, a comma, then the domain.  Only the domain column is
//! consumed.  A record with fewer than two columns rejects the whole list —
//! no partial lists.  The text comes either from a local file or, failing
//! that, from the first entry of a downloaded zip archive, whose decompressed
//! bytes are handed back for caching.  After parsing, the list is uniformly
//! shuffled so that interrupted and resumed runs do not hammer the same
//! domains in the same order.

use crate::DomainListError;
use vstd::prelude::*;

verus! {

/// The position of the first `target` in `s` at or after `from` and before
/// `end`, or `end` when there is none.
pub open spec fn find_from(s: Seq<char>, from: int, end: int, target: char) -> int
    decreases end - from,
{
    if from >= end {
        end
    } else if s[from] == target {
        from
    } else {
        find_from(s, from + 1, end, target)
    }
}

pub proof fn lemma_find_from_bounds(s: Seq<char>, from: int, end: int, target: char)
    requires
        from <= end,
    ensures
        from <= find_from(s, from, end, target) <= end,
    decreases end - from,
{
    if from < end && s[from] != target {
        lemma_find_from_bounds(s, from + 1, end, target);
    }
}

/// The domains the list text names from position `from` on: one record per
/// non-empty line (a trailing carriage return is not content), the second
/// comma-separated column of each record.  `None` when some record has no
/// second column.
pub open spec fn csv_domains(s: Seq<char>, from: int) -> Option<Seq<Seq<char>>>
    decreases s.len() - from
        via csv_domains_dec
{
    if from >= s.len() {
        Some(Seq::empty())
    } else {
        let eol = find_from(s, from, s.len() as int, '\n');
        let end = if eol > from && s[eol - 1] == '\r' {
            eol - 1
        } else {
            eol
        };
        let next = if eol == s.len() {
            eol
        } else {
            eol + 1
        };
        let rest = csv_domains(s, next);
        if end == from {
            rest
        } else {
            let c1 = find_from(s, from, end, ',');
            if c1 == end {
                None
            } else {
                let c2 = find_from(s, c1 + 1, end, ',');
                match rest {
                    Some(tail) => Some(seq![s.subrange(c1 + 1, c2)] + tail),
                    None => None,
                }
            }
        }
    }
}

#[via_fn]
proof fn csv_domains_dec(s: Seq<char>, from: int) {
    if from < s.len() {
        lemma_find_from_bounds(s, from, s.len() as int, '\n');
    }
}

/// What parsing yields once the already-parsed prefix is glued to the rest.
pub open spec fn glue(done: Seq<Seq<char>>, rest: Option<Seq<Seq<char>>>) -> Option<
    Seq<Seq<char>>,
> {
    match rest {
        Some(tail) => Some(done + tail),
        None => None,
    }
}

/// Find the next occurrence of `target` before `end`, scanning from `from`.
fn scan_for(text: &str, from: usize, end: usize, target: char) -> (r: usize)
    requires
        from <= end <= text@.len(),
    ensures
        r == find_from(text@, from as int, end as int, target),
        from <= r <= end,
{
    let mut j = from;
    while j < end
        invariant
            from <= j <= end <= text@.len(),
            find_from(text@, from as int, end as int, target) == find_from(
                text@,
                j as int,
                end as int,
                target,
            ),
        decreases end - j,
    {
        if text.get_char(j) == target {
            return j;
        }
        j = j + 1;
    }
    j
}

/// Read the list text: one domain per non-empty record, in file order.
/// Rejects the whole text as soon as one record has no second column.
pub fn parse_domains(text: &str) -> (r: Result<Vec<String>, DomainListError>)
    ensures
        r is Ok <==> csv_domains(text@, 0) is Some,
        r matches Ok(v) ==> Some(v.deep_view()) == csv_domains(text@, 0),
        r matches Err(e) ==> e == DomainListError::Malformed,
{
    let n = text.unicode_len();
    let mut out: Vec<String> = Vec::new();
    let mut i: usize = 0;
    while i < n
        invariant
            i <= n,
            n == text@.len(),
            csv_domains(text@, 0) == glue(out.deep_view(), csv_domains(text@, i as int)),
        decreases n - i,
    {
        let eol = scan_for(text, i, n, '\n');
        let end = if eol > i && text.get_char(eol - 1) == '\r' {
            eol - 1
        } else {
            eol
        };
        let next = if eol == n {
            eol
        } else {
            eol + 1
        };
        if end > i {
            let c1 = scan_for(text, i, end, ',');
            if c1 == end {
                return Err(DomainListError::Malformed);
            }
            let c2 = scan_for(text, c1 + 1, end, ',');
            let domain = text.substring_char(c1 + 1, c2).to_owned();
            let ghost done = out.deep_view();
            out.push(domain);
            proof {
                assert(out.deep_view() =~= done.push(text@.subrange(c1 + 1, c2 as int)));
                match csv_domains(text@, next as int) {
                    Some(tail) => {
                        assert(done + (seq![text@.subrange(c1 + 1, c2 as int)] + tail)
                            =~= out.deep_view() + tail);
                    },
                    None => {},
                }
            }
        }
        i = next;
    }
    proof {
        assert(out.deep_view() + Seq::<Seq<char>>::empty() =~= out.deep_view());
    }
    Ok(out)
}

/// Relies on `rand::Rng::gen_range` over `rand::thread_rng`: a uniformly
/// random index below `bound`.  Nothing is assumed beyond the range; two
/// calls with the same bound may differ.
#[verifier::external_body]
fn random_below(bound: usize) -> (r: usize)
    requires
        bound >= 1,
    ensures
        r < bound,
{
    rand::Rng::gen_range(&mut rand::thread_rng(), 0..bound)
}

/// Exchange the elements at `i` and `j`.
fn swap_domains(v: &mut Vec<String>, i: usize, j: usize)
    requires
        i < old(v)@.len(),
        j < old(v)@.len(),
    ensures
        final(v)@ == old(v)@.update(i as int, old(v)@[j as int]).update(
            j as int,
            old(v)@[i as int],
        ),
{
    let a = v[i].clone();
    let b = v[j].clone();
    v.set(i, b);
    v.set(j, a);
}

/// Exchanging two elements rearranges a sequence without dropping or
/// duplicating anything: the element multiset is unchanged.
proof fn lemma_swap_preserves_multiset<A>(s: Seq<A>, i: int, j: int)
    requires
        0 <= i < s.len(),
        0 <= j < s.len(),
    ensures
        s.update(i, s[j]).update(j, s[i]).to_multiset() =~= s.to_multiset(),
{
    broadcast use vstd::seq_lib::group_to_multiset_ensures;

    let t = s.update(i, s[j]);
    vstd::seq_lib::to_multiset_update(s, i, s[j]);
    vstd::seq_lib::to_multiset_update(t, j, s[i]);
    if i == j {
        assert(t =~= s.update(j, s[j]));
        assert(t[j] == s[j]);
        assert(s.to_multiset().contains(s[j]));
        assert(t.update(j, s[i]).to_multiset() =~= s.to_multiset()) by {
            assert(t.update(j, s[i]) =~= s);
        }
    } else {
        assert(t[j] == s[j]);
        assert(s.to_multiset().contains(s[i]));
        assert(s.to_multiset().contains(s[j]));
        assert(t.update(j, s[i]).to_multiset() =~= s.to_multiset().insert(s[j]).remove(
            s[i],
        ).insert(s[i]).remove(s[j]));
        assert forall|x: A|
            s.to_multiset().insert(s[j]).remove(s[i]).insert(s[i]).remove(s[j]).count(x)
                == s.to_multiset().count(x) by {
            assert(s.to_multiset().count(s[i]) >= 1);
            assert(s.to_multiset().count(s[j]) >= 1);
        }
        assert(s.to_multiset().insert(s[j]).remove(s[i]).insert(s[i]).remove(s[j])
            =~= s.to_multiset());
    }
}

/// Uniformly permute the list in place, so that repeated runs do not visit
/// the same domains in the same order early in the batch.  The shuffle only
/// rearranges: no element is dropped or duplicated, and the length is kept.
pub fn shuffle_domains(v: &mut Vec<String>)
    ensures
        final(v)@.len() == old(v)@.len(),
        final(v)@.to_multiset() == old(v)@.to_multiset(),
        final(v).deep_view().to_multiset() == old(v).deep_view().to_multiset(),
{
    broadcast use vstd::seq_lib::group_to_multiset_ensures;

    let n = v.len();
    let mut i: usize = n;
    while i > 1
        invariant
            i <= n,
            n == v@.len(),
            v@.to_multiset() == old(v)@.to_multiset(),
            v.deep_view().to_multiset() == old(v).deep_view().to_multiset(),
        decreases i,
    {
        let ghost pre = *v;
        let j = random_below(i);
        swap_domains(v, i - 1, j);
        proof {
            lemma_swap_preserves_multiset(pre@, i - 1, j as int);
            lemma_swap_preserves_multiset(pre.deep_view(), i - 1, j as int);
            assert(v.deep_view() =~= pre.deep_view().update(i - 1, pre.deep_view()[j as int]).update(
                j as int,
                pre.deep_view()[i - 1],
            ));
        }
        i = i - 1;
    }
}

/// Relies on `std::str::from_utf8`: `Ok` exactly on valid UTF-8 input,
/// yielding its decoded characters.
#[verifier::external_body]
fn decode_utf8_text(bytes: &Vec<u8>) -> (r: Option<String>)
    ensures
        r is Some <==> vstd::utf8::valid_utf8(bytes@),
        r matches Some(text) ==> text@ == vstd::utf8::decode_utf8(bytes@),
{
    match std::str::from_utf8(bytes.as_slice()) {
        Ok(text) => Some(text.to_owned()),
        Err(_) => None,
    }
}

/// The decompressed first entry of a zip archive: a function of the archive
/// bytes alone.
pub uninterp spec fn unzipped_first(archive: Seq<u8>) -> Seq<u8>;

/// Relies on `zip::ZipArchive` (`new`, `by_index`) and
/// `std::io::Read::read_to_end`: decompress the archive's first entry.
/// `None` when the bytes are not a readable archive or have no first entry.
#[verifier::external_body]
fn unzip_first(archive: &Vec<u8>) -> (r: Option<Vec<u8>>)
    ensures
        r matches Some(data) ==> data@ == unzipped_first(archive@),
{
    let cursor = std::io::Cursor::new(archive.as_slice());
    let mut arch = match zip::ZipArchive::new(cursor) {
        Ok(a) => a,
        Err(_) => return None,
    };
    let mut entry = match arch.by_index(0) {
        Ok(e) => e,
        Err(_) => return None,
    };
    let mut data = Vec::new();
    match std::io::Read::read_to_end(&mut entry, &mut data) {
        Ok(_) => Some(data),
        Err(_) => None,
    }
}

/// The domains a list text given as bytes names: [`csv_domains`] over its
/// decoded characters, `None` when the bytes are not UTF-8 or a record has
/// no second column.
pub open spec fn domains_of(bytes: Seq<u8>) -> Option<Seq<Seq<char>>> {
    if vstd::utf8::valid_utf8(bytes) {
        csv_domains(vstd::utf8::decode_utf8(bytes), 0)
    } else {
        None
    }
}

/// Read the list text out of its bytes: decode, then parse the records.
pub fn parse_list_bytes(bytes: &Vec<u8>) -> (r: Result<Vec<String>, DomainListError>)
    ensures
        r is Ok <==> domains_of(bytes@) is Some,
        r matches Ok(v) ==> Some(v.deep_view()) == domains_of(bytes@),
        r matches Err(e) ==> e == DomainListError::Malformed,
{
    match decode_utf8_text(bytes) {
        Some(text) => parse_domains(text.as_str()),
        None => Err(DomainListError::Malformed),
    }
}

/// Everything acquisition yields: the shuffled domain list, and — when the
/// list came from the remote archive — the decompressed bytes, to be written
/// to the local path before any fetch starts so later runs skip the download.
pub struct AcquiredList {
    pub domains: Vec<String>,
    pub cache: Option<Vec<u8>>,
}

/// The acquired list is a permutation of the parsed one: same length, same
/// element multiset.
pub open spec fn lists_permuted(a: AcquiredList, parsed: Option<Seq<Seq<char>>>) -> bool {
    match parsed {
        Some(ds) => a.domains.deep_view().to_multiset() == ds.to_multiset() && a.domains@.len()
            == ds.len(),
        None => false,
    }
}

/// The acquired list carries exactly `bytes` to be cached.
pub open spec fn cache_is(a: AcquiredList, bytes: Seq<u8>) -> bool {
    match a.cache {
        Some(c) => c@ == bytes,
        None => false,
    }
}

/// Everything [`acquire`] promises, by source.  From a local list: success
/// exactly when the bytes parse, a permutation of the parsed domains, nothing
/// to cache.  From the archive: on success, a permutation of the domains
/// parsed out of the decompressed first entry, which is handed back for
/// caching; a malformed-list error only when that entry really does not
/// parse.  From nothing: the run cannot be set up.
pub open spec fn acquire_post(
    local: Option<Vec<u8>>,
    archive: Option<Vec<u8>>,
    r: Result<AcquiredList, DomainListError>,
) -> bool {
    match local {
        Some(b) => {
            &&& (r is Ok <==> domains_of(b@) is Some)
            &&& match r {
                Ok(a) => a.cache is None && lists_permuted(a, domains_of(b@)),
                Err(e) => e == DomainListError::Malformed,
            }
        },
        None => match archive {
            Some(z) => match r {
                Ok(a) => lists_permuted(a, domains_of(unzipped_first(z@))) && cache_is(
                    a,
                    unzipped_first(z@),
                ),
                Err(e) => {
                    &&& (e == DomainListError::Malformed || e == DomainListError::Archive)
                    &&& (e == DomainListError::Malformed ==> domains_of(unzipped_first(z@))
                        is None)
                },
            },
            None => r == Err::<AcquiredList, DomainListError>(DomainListError::NoSource),
        },
    }
}

/// Produce the run's domain list.  A present local list is parsed as it is;
/// with none, the downloaded archive's first entry is decompressed and parsed
/// instead, and its bytes are handed back for caching.  Either way the parsed
/// list is then uniformly shuffled: what comes out is a permutation of the
/// records' second column, nothing dropped and nothing duplicated.
pub fn acquire(local: Option<Vec<u8>>, archive: Option<Vec<u8>>) -> (r: Result<
    AcquiredList,
    DomainListError,
>)
    ensures
        acquire_post(local, archive, r),
{
    match local {
        Some(bytes) => match parse_list_bytes(&bytes) {
            Ok(mut domains) => {
                shuffle_domains(&mut domains);
                Ok(AcquiredList { domains, cache: None })
            },
            Err(e) => Err(e),
        },
        None => match archive {
            Some(z) => match unzip_first(&z) {
                Some(csv_bytes) => match parse_list_bytes(&csv_bytes) {
                    Ok(mut domains) => {
                        shuffle_domains(&mut domains);
                        Ok(AcquiredList { domains, cache: Some(csv_bytes) })
                    },
                    Err(e) => Err(e),
                },
                None => Err(DomainListError::Archive),
            },
            None => Err(DomainListError::NoSource),
        },
    }
}

} // verus!
