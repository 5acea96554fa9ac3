//! Splitting source text into whitespace-separated words, the lexer's
//! first step.

use vstd::prelude::*;
use vstd::string::*;
use crate::text::{is_space, is_space_char};

verus! {

/// The words of `s` after `cur`, a partially read word, is finished:
/// a left-to-right scan that closes the current word at whitespace.
pub open spec fn split_ws_rec(s: Seq<char>, cur: Seq<char>) -> Seq<Seq<char>>
    decreases s.len(),
{
    if s.len() == 0 {
        if cur.len() == 0 {
            Seq::empty()
        } else {
            seq![cur]
        }
    } else if is_space_char(s[0]) {
        if cur.len() == 0 {
            split_ws_rec(s.drop_first(), Seq::empty())
        } else {
            seq![cur] + split_ws_rec(s.drop_first(), Seq::empty())
        }
    } else {
        split_ws_rec(s.drop_first(), cur.push(s[0]))
    }
}

/// The whitespace-separated words of `s`, in order, each non-empty.
pub open spec fn split_ws(s: Seq<char>) -> Seq<Seq<char>> {
    split_ws_rec(s, Seq::empty())
}

/// Splits source text into words, exactly as `split_ws` describes.
pub fn split_words(code: &str) -> (r: Vec<String>)
    ensures
        r.deep_view() == split_ws(code@),
{
    let len = code.unicode_len();
    let mut words: Vec<String> = Vec::new();
    let mut start: usize = 0;
    let mut i: usize = 0;
    proof {
        assert(words.deep_view() =~= Seq::<Seq<char>>::empty());
        assert(code@.skip(0) =~= code@);
        assert(code@.subrange(0, 0) =~= Seq::<char>::empty());
        assert(Seq::<Seq<char>>::empty() + split_ws_rec(code@, Seq::<char>::empty())
            =~= split_ws_rec(code@, Seq::<char>::empty()));
    }
    while i < len
        invariant
            code@.len() == len,
            start <= i <= len,
            split_ws(code@) == words.deep_view() + split_ws_rec(
                code@.skip(i as int),
                code@.subrange(start as int, i as int),
            ),
        decreases len - i,
    {
        let ghost rest = code@.skip(i as int);
        let ghost cur = code@.subrange(start as int, i as int);
        let ghost dv0 = words.deep_view();
        let c = code.get_char(i);
        proof {
            assert(rest[0] == code@[i as int]);
            assert(rest.drop_first() =~= code@.skip(i as int + 1));
        }
        if is_space(c) {
            if i > start {
                let word = String::from_str(code.substring_char(start, i));
                words.push(word);
                proof {
                    assert(words.deep_view() =~= dv0.push(cur));
                    assert(dv0 + (seq![cur] + split_ws_rec(
                        code@.skip(i as int + 1),
                        Seq::empty(),
                    )) =~= dv0.push(cur) + split_ws_rec(code@.skip(i as int + 1), Seq::empty()));
                }
            }
            start = i + 1;
            proof {
                assert(code@.subrange(start as int, i as int + 1) =~= Seq::<char>::empty());
            }
        } else {
            proof {
                assert(code@.subrange(start as int, i as int + 1) =~= cur.push(code@[i as int]));
            }
        }
        i += 1;
    }
    proof {
        assert(code@.skip(len as int) =~= Seq::<char>::empty());
    }
    if start < len {
        let ghost dv0 = words.deep_view();
        let ghost cur = code@.subrange(start as int, len as int);
        let word = String::from_str(code.substring_char(start, len));
        words.push(word);
        proof {
            assert(words.deep_view() =~= dv0.push(cur));
            assert(dv0 + seq![cur] =~= dv0.push(cur));
        }
    }
    words
}

} // verus!
