//! Translation components and the filling of `{}` placeholders.

use vstd::prelude::*;
use crate::text::{chars_of, deep_strings, push_str, string_from_chars};

verus! {

/// A translation parameter: literal text, or a nested component.
#[derive(Debug)]
pub enum TransParam {
    Text(String),
    Component(Box<TranslationComponent>),
}

/// A localizable message: a key and its parameters in order.
#[derive(Debug)]
pub struct TranslationComponent {
    pub key: String,
    pub params: Vec<TransParam>,
}

impl TranslationComponent {
    /// A component without parameters.
    pub fn new(key: &str) -> (r: TranslationComponent)
        ensures
            r.key@ == key@,
            r.params@.len() == 0,
    {
        TranslationComponent { key: string_from_chars(&chars_of(key)), params: Vec::new() }
    }

    /// A component with the given parameters.
    pub fn with_params(key: &str, params: Vec<TransParam>) -> (r: TranslationComponent)
        ensures
            r.key@ == key@,
            r.params@ == params@,
    {
        TranslationComponent { key: string_from_chars(&chars_of(key)), params }
    }
}

/// The template with each `{}`, from left to right, replaced by the next
/// argument; once the arguments run out the remaining `{}` stay as they are,
/// and surplus arguments are ignored.
pub open spec fn fill_spec(t: Seq<char>, args: Seq<Seq<char>>) -> Seq<char>
    decreases t.len(),
{
    if t.len() == 0 {
        Seq::empty()
    } else if t.len() >= 2 && t[0] == '{' && t[1] == '}' {
        if args.len() > 0 {
            args[0] + fill_spec(t.subrange(2, t.len() as int), args.drop_first())
        } else {
            seq!['{', '}'] + fill_spec(t.subrange(2, t.len() as int), args)
        }
    } else {
        seq![t[0]] + fill_spec(t.drop_first(), args)
    }
}

/// `t` holds no `{}`.
pub open spec fn no_placeholder(t: Seq<char>) -> bool {
    forall|i: int| 0 <= i < t.len() - 1 ==> !(#[trigger] t[i] == '{' && t[i + 1] == '}')
}

/// A template without placeholders comes out unchanged, whatever the arguments.
pub proof fn lemma_fill_without_placeholders(t: Seq<char>, args: Seq<Seq<char>>)
    requires
        no_placeholder(t),
    ensures
        fill_spec(t, args) == t,
    decreases t.len(),
{
    if t.len() > 0 {
        assert(!(t.len() >= 2 && t[0] == '{' && t[1] == '}'));
        let r = t.drop_first();
        assert forall|i: int| 0 <= i < r.len() - 1 implies !(#[trigger] r[i] == '{' && r[i + 1] == '}') by {
            assert(r[i] == t[i + 1] && r[i + 1] == t[i + 2]);
        }
        lemma_fill_without_placeholders(r, args);
        assert(seq![t[0]] + r =~= t);
    }
}

/// Without arguments every placeholder stays: the template comes out unchanged.
pub proof fn lemma_fill_without_args(t: Seq<char>)
    ensures
        fill_spec(t, Seq::empty()) == t,
    decreases t.len(),
{
    if t.len() > 0 {
        if t.len() >= 2 && t[0] == '{' && t[1] == '}' {
            lemma_fill_without_args(t.subrange(2, t.len() as int));
            assert(seq!['{', '}'] + t.subrange(2, t.len() as int) =~= t);
        } else {
            lemma_fill_without_args(t.drop_first());
            assert(seq![t[0]] + t.drop_first() =~= t);
        }
    }
}

/// Fills the `{}` placeholders of `template` with `args` in order.
pub fn fill_args(template: &str, args: &Vec<String>) -> (r: String)
    ensures
        r@ == fill_spec(template@, deep_strings(args@)),
{
    let t = chars_of(template);
    let ghost all = deep_strings(args@);
    let mut out: Vec<char> = Vec::new();
    let mut idx: usize = 0;
    let mut i: usize = 0;
    assert(t@.subrange(0, t@.len() as int) =~= t@);
    assert(all.subrange(0, all.len() as int) =~= all);
    assert(out@ + fill_spec(t@, all) =~= fill_spec(t@, all));
    while i < t.len()
        invariant
            i <= t@.len(),
            idx <= args@.len(),
            t@ == template@,
            all == deep_strings(args@),
            out@ + fill_spec(t@.subrange(i as int, t@.len() as int), all.subrange(idx as int, all.len() as int))
                == fill_spec(t@, all),
        decreases t@.len() - i,
    {
        let ghost rest = t@.subrange(i as int, t@.len() as int);
        let ghost ra = all.subrange(idx as int, all.len() as int);
        if i + 1 < t.len() && t[i] == '{' && t[i + 1] == '}' {
            assert(rest[0] == '{' && rest[1] == '}');
            assert(rest.subrange(2, rest.len() as int) =~= t@.subrange(i + 2, t@.len() as int));
            if idx < args.len() {
                assert(ra[0] == args@[idx as int]@);
                assert(ra.drop_first() =~= all.subrange(idx + 1, all.len() as int));
                push_str(&mut out, args[idx].as_str());
                idx += 1;
            } else {
                out.push('{');
                out.push('}');
            }
            i += 2;
        } else {
            assert(rest[0] == t@[i as int]);
            assert(rest.drop_first() =~= t@.subrange(i + 1, t@.len() as int));
            out.push(t[i]);
            i += 1;
        }
        assert(out@ + fill_spec(t@.subrange(i as int, t@.len() as int), all.subrange(idx as int, all.len() as int))
            =~= fill_spec(t@, all));
    }
    assert(fill_spec(t@.subrange(i as int, t@.len() as int), all.subrange(idx as int, all.len() as int)) =~= Seq::<char>::empty());
    assert(out@ =~= fill_spec(t@, all));
    string_from_chars(&out)
}

/// The length in bytes of a UTF-8 sequence, read from its first byte.
pub fn utf8_char_len(first: u8) -> (r: usize)
    ensures
        r == (if first <= 0x7f {
            1usize
        } else if 0xc0 <= first <= 0xdf {
            2
        } else if 0xe0 <= first <= 0xef {
            3
        } else {
            4
        }),
{
    if first <= 0x7f {
        1
    } else if 0xc0 <= first && first <= 0xdf {
        2
    } else if 0xe0 <= first && first <= 0xef {
        3
    } else {
        4
    }
}

} // verus!
