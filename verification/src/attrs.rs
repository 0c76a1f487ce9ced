//! The attribute lexer: splits the raw attribute-list text of a tag into
//! its ordered `key="value"` pairs. Values are kept as the literal quoted
//! text, without entity decoding; a key that lacks a following `=` and
//! quoted value is a malformed attribute list.

use vstd::prelude::*;
use crate::text::{
    chars_of, copy_range, find_char, find_char_from, lemma_trim_front_idempotent, skip_spaces,
    string_of, trim_front,
};

verus! {

/// One `key="value"` pair of a tag's attribute list.
#[derive(Debug, Clone, PartialEq, Eq)]
pub struct Attribute {
    /// The key, verbatim.
    pub key: String,
    /// The quoted value, verbatim, without entity decoding.
    pub value: String,
}

/// Mathematical view of an [`Attribute`].
#[verifier::ext_equal]
pub ghost struct AttributeV {
    /// View of the key.
    pub key: Seq<char>,
    /// View of the value.
    pub value: Seq<char>,
}

impl DeepView for Attribute {
    type V = AttributeV;

    open spec fn deep_view(&self) -> AttributeV {
        AttributeV { key: self.key@, value: self.value@ }
    }
}

/// An attribute list, a tag, or a declaration that does not fit the shape
/// the document grammar expects.
#[derive(Debug, Clone, Copy, PartialEq, Eq, Structural)]
pub struct ParseError;

/// One step per pair: after leading whitespace, a key runs to the first
/// `=`, the value is quoted by `'` or `"`, and the pairs already read stand
/// in `acc`; `None` when a key lacks its `=` or its quoted value.
pub open spec fn attrs_loop(s: Seq<char>, acc: Seq<AttributeV>) -> Option<Seq<AttributeV>>
    decreases s.len(),
    via attrs_loop_dec
{
    let t = trim_front(s);
    if t.len() == 0 {
        Some(acc)
    } else {
        match find_char(t, '=') {
            None => None,
            Some(k) => {
                let rest = t.skip(k + 1);
                if rest.len() == 0 {
                    None
                } else if rest[0] == '\'' || rest[0] == '"' {
                    let vrest = rest.drop_first();
                    match find_char(vrest, rest[0]) {
                        None => None,
                        Some(m) => attrs_loop(
                            vrest.skip(m + 1),
                            acc.push(AttributeV { key: t.subrange(0, k), value: vrest.subrange(0, m) }),
                        ),
                    }
                } else {
                    None
                }
            },
        }
    }
}

#[via_fn]
proof fn attrs_loop_dec(s: Seq<char>, acc: Seq<AttributeV>) {
    crate::text::lemma_trim_front_len(s);
    let t = trim_front(s);
    crate::text::lemma_find_char(t, '=');
    match find_char(t, '=') {
        Some(k) => {
            let rest = t.skip(k + 1);
            if rest.len() > 0 {
                crate::text::lemma_find_char(rest.drop_first(), rest[0]);
            }
        },
        None => {},
    }
}

/// The ordered key/value pairs of the raw attribute text `s`, or `None`
/// when the list is malformed.
pub open spec fn attrs_of(s: Seq<char>) -> Option<Seq<AttributeV>> {
    attrs_loop(s, Seq::empty())
}

/// Splits a raw attribute-list substring into its ordered key/value pairs,
/// or reports a malformed attribute list.
pub fn parse_attributes(attrs: &str) -> (r: Result<Vec<Attribute>, ParseError>)
    ensures
        match r {
            Ok(v) => attrs_of(attrs@) == Some(v.deep_view()),
            Err(_) => attrs_of(attrs@) is None,
        },
{
    let w = chars_of(attrs);
    let n = w.len();
    let mut out: Vec<Attribute> = Vec::new();
    let mut i: usize = 0;
    proof {
        assert(w@.skip(0) =~= w@);
        assert(out.deep_view() =~= Seq::<AttributeV>::empty());
    }
    loop
        invariant
            i <= n,
            n == w@.len(),
            w@ == attrs@,
            attrs_of(attrs@) == attrs_loop(w@.skip(i as int), out.deep_view()),
        decreases n - i,
    {
        let j = skip_spaces(&w, i);
        proof {
            lemma_trim_front_idempotent(w@.skip(i as int));
        }
        let ghost t = w@.skip(j as int);
        if j == n {
            proof {
                assert(t =~= Seq::<char>::empty());
            }
            return Ok(out);
        }
        let eq = match find_char_from(&w, j, '=') {
            Some(e) => e,
            None => {
                return Err(ParseError);
            },
        };
        if eq + 1 == n {
            proof {
                assert(t.skip(eq - j + 1) =~= Seq::<char>::empty());
            }
            return Err(ParseError);
        }
        let ghost rest = t.skip(eq - j + 1);
        proof {
            assert(forall|x: int| 0 <= x < rest.len() ==> rest[x] == w@[eq + 1 + x]);
            assert(rest.len() == n - eq - 1);
        }
        let q = w[eq + 1];
        if q != '\'' && q != '"' {
            return Err(ParseError);
        }
        let ghost vrest = rest.drop_first();
        proof {
            assert(vrest =~= w@.skip(eq + 2 as int));
        }
        let vq = match find_char_from(&w, eq + 2, q) {
            Some(m) => m,
            None => {
                return Err(ParseError);
            },
        };
        let key = copy_range(&w, j, eq);
        let value = copy_range(&w, eq + 2, vq);
        let ghost prev = out.deep_view();
        let attr = Attribute { key: string_of(&key), value: string_of(&value) };
        proof {
            assert(t.subrange(0, eq - j) =~= w@.subrange(j as int, eq as int));
            assert(vrest.subrange(0, vq - (eq + 2)) =~= w@.subrange(eq + 2 as int, vq as int));
        }
        out.push(attr);
        proof {
            assert(out.deep_view() =~= prev.push(
                AttributeV { key: t.subrange(0, eq - j), value: vrest.subrange(0, vq - (eq + 2)) },
            ));
            assert(vrest.skip(vq - (eq + 2) + 1) =~= w@.skip(vq + 1 as int));
        }
        i = vq + 1;
    }
}

} // verus!
