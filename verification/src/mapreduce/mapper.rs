use vstd::prelude::*;
use vstd::string::StrSliceExecFns;

verus! {

/// The chunk of texts one mapper processes, and the words it searches for.
#[derive(Clone)]
pub struct WorkAssignment {
    pub chunk_id: usize,
    pub data: Vec<String>,
    pub targets: Vec<String>,
}

/// The same assignment shape for the channel-based workers.
#[derive(Clone)]
pub struct MapWorkAssignment {
    pub chunk_id: usize,
    pub data: Vec<String>,
    pub targets: Vec<String>,
}

/// `needle` occurs in `hay` starting at position `i`.
pub open spec fn matches_at(hay: Seq<char>, needle: Seq<char>, i: int) -> bool {
    0 <= i && i + needle.len() <= hay.len() && hay.subrange(i, i + needle.len()) == needle
}

/// `needle` occurs somewhere in `hay` (anywhere, the empty word always).
pub open spec fn contains_word(hay: Seq<char>, needle: Seq<char>) -> bool {
    exists|i: int| matches_at(hay, needle, i)
}

/// How many of the texts contain the word.
pub open spec fn count_containing(data: Seq<String>, word: Seq<char>) -> nat {
    data.filter(|s: String| contains_word(s@, word)).len()
}

/// Whether `needle` occurs in `hay` at exactly position `i`.
fn matches_here(hay: &str, needle: &str, i: usize) -> (r: bool)
    requires
        i + needle@.len() <= hay@.len(),
        hay@.len() <= usize::MAX,
    ensures
        r == matches_at(hay@, needle@, i as int),
{
    let nlen = needle.unicode_len();
    let mut k: usize = 0;
    while k < nlen
        invariant
            nlen == needle@.len(),
            i + nlen <= hay@.len(),
            hay@.len() <= usize::MAX,
            k <= nlen,
            forall|j: int| 0 <= j < k ==> hay@[i + j] == needle@[j],
        decreases nlen - k,
    {
        if hay.get_char(i + k) != needle.get_char(k) {
            proof {
                if matches_at(hay@, needle@, i as int) {
                    assert(hay@.subrange(i as int, i + needle@.len())[k as int] == needle@[k as int]);
                }
            }
            return false;
        }
        k = k + 1;
    }
    proof {
        assert(hay@.subrange(i as int, i + needle@.len()) =~= needle@);
    }
    true
}

/// Whether the word occurs anywhere in the text.
pub fn contains_target(hay: &str, needle: &str) -> (r: bool)
    ensures
        r == contains_word(hay@, needle@),
{
    let hlen = hay.unicode_len();
    let nlen = needle.unicode_len();
    if nlen > hlen {
        proof {
            assert(forall|i: int| !matches_at(hay@, needle@, i));
        }
        return false;
    }
    if nlen == 0 {
        proof {
            assert(hay@.subrange(0, 0) =~= needle@);
            assert(matches_at(hay@, needle@, 0));
        }
        return true;
    }
    let positions = hlen - nlen + 1;
    let mut i: usize = 0;
    while i < positions
        invariant
            hlen == hay@.len(),
            nlen == needle@.len(),
            1 <= nlen <= hlen,
            positions == hlen - nlen + 1,
            i <= positions,
            forall|j: int| 0 <= j < i ==> !matches_at(hay@, needle@, j),
        decreases positions - i,
    {
        if matches_here(hay, needle, i) {
            return true;
        }
        i = i + 1;
    }
    proof {
        assert(forall|j: int| j >= positions ==> !matches_at(hay@, needle@, j));
    }
    false
}

/// How many of the chunk's texts contain `word`.
fn count_in_chunk(data: &[String], word: &String) -> (c: usize)
    ensures
        c == count_containing(data@, word@),
        c <= data@.len(),
{
    let ghost pred = |s: String| contains_word(s@, word@);
    let n = data.len();
    let mut c: usize = 0;
    let mut i: usize = 0;
    proof {
        reveal(Seq::filter);
        assert(data@.take(0).filter(pred) =~= Seq::<String>::empty());
    }
    while i < n
        invariant
            n == data@.len(),
            i <= n,
            pred == (|s: String| contains_word(s@, word@)),
            c == data@.take(i as int).filter(pred).len(),
            c <= i,
        decreases n - i,
    {
        proof {
            reveal(Seq::filter);
            let t1 = data@.take(i + 1);
            assert(t1.drop_last() =~= data@.take(i as int));
            assert(t1.last() == data@[i as int]);
        }
        if contains_target(data[i].as_str(), word.as_str()) {
            c = c + 1;
        }
        i = i + 1;
    }
    proof {
        assert(data@.take(n as int) =~= data@);
    }
    c
}

/// The map phase's whole logic: for every target word, how many of the
/// chunk's texts contain it, reported in the order of the target list.
pub fn map_logic(data: &[String], targets: &[String]) -> (r: Vec<(String, i32)>)
    requires
        data@.len() <= i32::MAX,
    ensures
        r@.len() == targets@.len(),
        forall|t: int|
            0 <= t < targets@.len() ==> (#[trigger] r@[t]).0 == targets@[t] && r@[t].1
                == count_containing(data@, targets@[t]@),
{
    let n = targets.len();
    let mut out: Vec<(String, i32)> = Vec::new();
    let mut t: usize = 0;
    while t < n
        invariant
            n == targets@.len(),
            t <= n,
            data@.len() <= i32::MAX,
            out@.len() == t,
            forall|j: int|
                0 <= j < t ==> (#[trigger] out@[j]).0 == targets@[j] && out@[j].1
                    == count_containing(data@, targets@[j]@),
        decreases n - t,
    {
        let count = count_in_chunk(data, &targets[t]);
        out.push((targets[t].clone(), count as i32));
        t = t + 1;
    }
    out
}

} // verus!
