//! Verified text helpers: string comparison and the splitting of the
//! handshake target into its flat `key=value&key=value` argument list.

use vstd::prelude::*;

verus! {

/// Character-by-character string equality, proved against the string views.
pub fn str_eq(a: &str, b: &str) -> (r: bool)
    ensures
        r == (a@ == b@),
{
    let la = a.unicode_len();
    let lb = b.unicode_len();
    if la != lb {
        return false;
    }
    let mut i: usize = 0;
    while i < la
        invariant
            la == a@.len(),
            la == b@.len(),
            i <= la,
            forall|j: int| 0 <= j < i ==> a@[j] == b@[j],
        decreases la - i,
    {
        if a.get_char(i) != b.get_char(i) {
            return false;
        }
        i += 1;
    }
    proof {
        assert(a@ =~= b@);
    }
    true
}

/// Whether a character separates two handshake arguments.
pub open spec fn is_arg_sep(c: char) -> bool {
    c == '&' || c == '='
}

/// The argument list of a handshake target: the segments between `&` and `=`
/// separators, in order. An empty input yields one empty segment.
pub open spec fn split_args_spec(s: Seq<char>) -> Seq<Seq<char>>
    decreases s.len(),
{
    if s.len() == 0 {
        seq![Seq::<char>::empty()]
    } else {
        let prev = split_args_spec(s.drop_last());
        if is_arg_sep(s.last()) {
            prev.push(Seq::<char>::empty())
        } else {
            prev.update(prev.len() - 1, prev.last().push(s.last()))
        }
    }
}

/// Splits a handshake target on `&` and `=`, greedily: every even position of
/// the result is a key and every odd position the value assigned to it.
pub fn split_url_arguments(s: &str) -> (parts: Vec<String>)
    ensures
        parts@.map_values(|p: String| p@) == split_args_spec(s@),
        parts@.len() >= 1,
{
    let n = s.unicode_len();
    let mut parts: Vec<String> = Vec::new();
    let mut start: usize = 0;
    let mut i: usize = 0;
    proof {
        assert(s@.take(0) =~= Seq::<char>::empty());
        assert(s@.subrange(0, 0) =~= Seq::<char>::empty());
        assert(parts@.map_values(|p: String| p@).push(s@.subrange(0, 0)) =~~= split_args_spec(
            s@.take(0),
        ));
    }
    while i < n
        invariant
            n == s@.len(),
            start <= i <= n,
            parts@.map_values(|p: String| p@).push(s@.subrange(start as int, i as int))
                == split_args_spec(s@.take(i as int)),
        decreases n - i,
    {
        let ghost pre = parts@.map_values(|p: String| p@);
        let ghost old_start = start as int;
        let c = s.get_char(i);
        if c == '&' || c == '=' {
            let seg = s.substring_char(start, i);
            parts.push(seg.to_owned());
            start = i + 1;
        }
        proof {
            assert(s@.take(i as int + 1).drop_last() =~= s@.take(i as int));
            assert(s@.take(i as int + 1).last() == s@[i as int]);
            let post = split_args_spec(s@.take(i as int + 1));
            let prev = split_args_spec(s@.take(i as int));
            if is_arg_sep(s@[i as int]) {
                // One segment was closed and pushed; the open segment restarts empty.
                assert(parts@.map_values(|p: String| p@) =~~= pre.push(
                    s@.subrange(old_start, i as int),
                ));
                assert(s@.subrange(start as int, i as int + 1) =~= Seq::<char>::empty());
                assert(post =~~= parts@.map_values(|p: String| p@).push(
                    s@.subrange(start as int, i as int + 1),
                ));
            } else {
                // The open segment grows by one character.
                assert(prev.last() == s@.subrange(old_start, i as int));
                assert(s@.subrange(old_start, i as int).push(s@[i as int]) =~= s@.subrange(
                    old_start,
                    i as int + 1,
                ));
                assert(post =~~= pre.push(s@.subrange(start as int, i as int + 1)));
            }
        }
        i += 1;
    }
    let ghost pre = parts@.map_values(|p: String| p@);
    let last = s.substring_char(start, n);
    parts.push(last.to_owned());
    proof {
        assert(s@.take(n as int) =~= s@);
        assert(parts@.map_values(|p: String| p@) =~~= pre.push(s@.subrange(start as int, n as int)));
    }
    parts
}

} // verus!
