//! Choices over stored trace files that need no file system of their own:
//! joining a directory with a file name, and picking the newest stored file
//! as the lexicographically last name of a listing.

use vstd::prelude::*;

use crate::bytes::lex_le;
use crate::bytes::lemma_lex_le_total;
use crate::bytes::lemma_lex_le_trans;

verus! {

/// `dir`, a path separator, then `name`.
pub open spec fn joined_path(dir: Seq<u8>, name: Seq<u8>) -> Seq<u8> {
    dir + seq![47u8] + name
}

/// Join a directory and a file name into one path.
pub fn join_path(dir: &[u8], name: &[u8]) -> (r: Vec<u8>)
    ensures
        r@ == joined_path(dir@, name@),
{
    let mut r: Vec<u8> = Vec::new();
    r.extend_from_slice(dir);
    r.push(47);
    r.extend_from_slice(name);
    proof {
        assert(r@ =~= joined_path(dir@, name@));
    }
    r
}

/// The file the word `latest` names: the lexicographically last of the
/// listed files, or nothing when the listing is empty.
pub fn find_latest_file(files: &Vec<Vec<u8>>) -> (r: Option<Vec<u8>>)
    ensures
        (match r {
            Option::None => files@.len() == 0,
            Option::Some(m) => {
                &&& exists|i: int| 0 <= i < files@.len() && (#[trigger] files@[i])@ == m@
                &&& forall|i: int| 0 <= i < files@.len() ==> lex_le((#[trigger] files@[i])@, m@)
            },
        }),
{
    if files.len() == 0 {
        return Option::None;
    }
    let mut best: Vec<u8> = files[0].clone();
    proof {
        assert(best@ =~= files@[0]@);
        lemma_lex_le_total(best@, best@);
    }
    let n = files.len();
    let mut i: usize = 1;
    while i < n
        invariant
            1 <= i <= n == files@.len(),
            exists|k: int| 0 <= k < i && (#[trigger] files@[k])@ == best@,
            forall|k: int| 0 <= k < i ==> lex_le((#[trigger] files@[k])@, best@),
        decreases n - i,
    {
        let ghost prev = best@;
        if crate::bytes::bytes_le(best.as_slice(), files[i].as_slice()) {
            best = files[i].clone();
            proof {
                assert(best@ =~= files@[i as int]@);
                assert(lex_le(prev, best@));
                assert forall|k: int| 0 <= k < i + 1 implies lex_le(
                    (#[trigger] files@[k])@,
                    best@,
                ) by {
                    if k < i {
                        lemma_lex_le_trans(files@[k]@, prev, best@);
                    } else {
                        lemma_lex_le_total(best@, best@);
                    }
                }
            }
        } else {
            proof {
                lemma_lex_le_total(best@, files@[i as int]@);
            }
        }
        i = i + 1;
    }
    Option::Some(best)
}

} // verus!
