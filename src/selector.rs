//! Selectors: a chain of compound selectors, and the reader that builds one
//! from a selector string.
use vstd::prelude::*;

verus! {

/// A CSS selector chain, such as `.x#y .e5`.
///
/// `ids` and `classes` are matched by the selected element itself; `parent`,
/// when present, is the selector that some ancestor of that element must
/// match.
#[derive(PartialEq, Debug)]
pub struct Selector {
    pub ids: Vec<String>,
    pub classes: Vec<String>,
    pub parent: Option<Box<Selector>>,
}

/// The ids and the classes of one compound selector.
pub type Compound = (Seq<Seq<char>>, Seq<Seq<char>>);

/// Whitespace as `char::is_whitespace` has it: the characters with the
/// Unicode `White_Space` property.
pub open spec fn is_space(c: char) -> bool {
    let u = c as u32;
    ||| 0x09 <= u && u <= 0x0D
    ||| u == 0x20
    ||| u == 0x85
    ||| u == 0xA0
    ||| u == 0x1680
    ||| 0x2000 <= u && u <= 0x200A
    ||| u == 0x2028
    ||| u == 0x2029
    ||| u == 0x202F
    ||| u == 0x205F
    ||| u == 0x3000
}

/// The whitespace-separated tokens of `s`, left to right: its maximal runs
/// of characters that are not whitespace.
pub open spec fn tokens(s: Seq<char>) -> Seq<Seq<char>>
    decreases s.len(),
{
    if s.len() == 0 {
        seq![]
    } else {
        let prev = s.drop_last();
        let c = s.last();
        let ts = tokens(prev);
        if is_space(c) {
            ts
        } else if prev.len() > 0 && !is_space(prev.last()) {
            ts.update(ts.len() - 1, ts.last().push(c))
        } else {
            ts.push(seq![c])
        }
    }
}

/// A character that starts an id (`#`) or a class (`.`).
pub open spec fn is_delimiter(c: char) -> bool {
    c == '#' || c == '.'
}

/// The name that starts at position `i` of token `t`: the characters from
/// there up to the next delimiter or the end of the token.
pub open spec fn name_from(t: Seq<char>, i: nat) -> Seq<char>
    decreases t.len() - i,
{
    if i >= t.len() || is_delimiter(t[i as int]) {
        seq![]
    } else {
        seq![t[i as int]] + name_from(t, i + 1)
    }
}

/// The names that follow each occurrence of `mark` at or after position
/// `i` of token `t`, in order of occurrence.
pub open spec fn names_from(t: Seq<char>, mark: char, i: nat) -> Seq<Seq<char>>
    decreases t.len() - i,
{
    if i >= t.len() {
        seq![]
    } else if t[i as int] == mark {
        seq![name_from(t, i + 1)] + names_from(t, mark, i + 1)
    } else {
        names_from(t, mark, i + 1)
    }
}

/// The ids and classes of token `t`: every `#name` and every `.name` in it,
/// each in order of appearance.
pub open spec fn compound_of(t: Seq<char>) -> Compound {
    (names_from(t, '#', 0), names_from(t, '.', 0))
}

/// What reading `s` gives: one compound selector per token, the last token
/// first and then each token to its left in turn.
pub open spec fn chain_of(s: Seq<char>) -> Seq<Compound> {
    let ts = tokens(s);
    Seq::new(ts.len(), |i: int| compound_of(ts[ts.len() - 1 - i]))
}

impl Selector {
    /// The compound selectors of the chain: this one first, then each
    /// ancestor requirement outward.
    pub open spec fn chain(self) -> Seq<Compound>
        decreases self,
    {
        let here = (self.ids.deep_view(), self.classes.deep_view());
        match self.parent {
            None => seq![here],
            Some(p) => seq![here] + (*p).chain(),
        }
    }

    /// Reads a selector string: whitespace-separated compound selectors,
    /// each made of `#id` and `.class` fragments.
    ///
    /// The last token becomes the returned selector and each token to its
    /// left the parent of the one to its right. Every `#name` of a token goes
    /// to `ids` and every `.name` to `classes`, in order of appearance; a name
    /// ends at the next `#`, `.` or the end of its token, and may be empty.
    /// Other text, such as a tag name, is dropped. The string must hold at
    /// least one token.
    pub fn from(input: &str) -> (r: Selector)
        requires
            tokens(input@).len() > 0,
        ensures
            r.chain() == chain_of(input@),
    {
        let toks = split_tokens(input);
        let ghost ts = tokens(input@);
        let mut sel = Selector::compound(toks[0].as_str(), None);
        assert(sel.chain() =~= Seq::new(1, |i: int| compound_of(ts[0 - i])));
        let mut k: usize = 1;
        while k < toks.len()
            invariant
                toks.deep_view() == ts,
                1 <= k <= toks.len(),
                sel.chain() == Seq::new(k as nat, |i: int| compound_of(ts[k - 1 - i])),
            decreases toks.len() - k,
        {
            sel = Selector::compound(toks[k].as_str(), Some(Box::new(sel)));
            assert(sel.chain() =~= Seq::new((k + 1) as nat, |i: int| compound_of(ts[k - i])));
            k = k + 1;
        }
        sel
    }

    /// The compound selector of token `t`, with `parent` as its ancestor
    /// requirement.
    fn compound(t: &str, parent: Option<Box<Selector>>) -> (r: Selector)
        ensures
            r.chain() == seq![compound_of(t@)] + match parent {
                None => Seq::empty(),
                Some(p) => (*p).chain(),
            },
    {
        let ids = names_in(t, '#');
        let classes = names_in(t, '.');
        let r = Selector { ids, classes, parent };
        assert(r.chain() =~= seq![compound_of(t@)] + match parent {
            None => Seq::empty(),
            Some(p) => (*p).chain(),
        });
        r
    }
}

impl Clone for Selector {
    /// A copy of the whole chain.
    fn clone(&self) -> (r: Selector)
        ensures
            r.chain() == self.chain(),
        decreases self,
    {
        let parent = match &self.parent {
            None => None,
            Some(p) => Some(Box::new((**p).clone())),
        };
        let ids = self.ids.clone();
        let classes = self.classes.clone();
        assert(ids@ =~= self.ids@);
        assert(classes@ =~= self.classes@);
        let r = Selector { ids, classes, parent };
        assert(r.chain() =~= self.chain());
        r
    }
}

/// Tells whether `c` is whitespace.
fn is_space_char(c: char) -> (r: bool)
    ensures
        r == is_space(c),
{
    let u = c as u32;
    (0x09 <= u && u <= 0x0D) || u == 0x20 || u == 0x85 || u == 0xA0 || u == 0x1680 || (0x2000
        <= u && u <= 0x200A) || u == 0x2028 || u == 0x2029 || u == 0x202F || u == 0x205F || u
        == 0x3000
}

/// Collects the names that follow each occurrence of `mark` in token `t`.
fn names_in(t: &str, mark: char) -> (r: Vec<String>)
    ensures
        r.deep_view() == names_from(t@, mark, 0),
{
    let n = t.unicode_len();
    let mut r: Vec<String> = Vec::new();
    let mut j: usize = 0;
    while j < n
        invariant
            n == t@.len(),
            j <= n,
            r.deep_view() + names_from(t@, mark, j as nat) == names_from(t@, mark, 0),
        decreases n - j,
    {
        if t.get_char(j) == mark {
            let mut k: usize = j + 1;
            while k < n && !(t.get_char(k) == '#' || t.get_char(k) == '.')
                invariant
                    n == t@.len(),
                    j < k <= n,
                    t@.subrange(j + 1, k as int) + name_from(t@, k as nat) == name_from(
                        t@,
                        (j + 1) as nat,
                    ),
                decreases n - k,
            {
                assert(t@.subrange(j + 1, k + 1) =~= t@.subrange(j + 1, k as int).push(
                    t@[k as int],
                ));
                k = k + 1;
            }
            assert(name_from(t@, k as nat) == Seq::<char>::empty());
            assert(t@.subrange(j + 1, k as int) + Seq::<char>::empty() =~= t@.subrange(
                j + 1,
                k as int,
            ));
            let name = String::from_str(t.substring_char(j + 1, k));
            let ghost before = r.deep_view();
            r.push(name);
            assert(r.deep_view() =~= before.push(name_from(t@, (j + 1) as nat)));
        }
        j = j + 1;
    }
    r
}


/// Splits `s` into its whitespace-separated tokens.
fn split_tokens(s: &str) -> (r: Vec<String>)
    ensures
        r.deep_view() == tokens(s@),
{
    let n = s.unicode_len();
    let mut r: Vec<String> = Vec::new();
    let mut start: usize = 0;
    let mut in_token = false;
    let mut i: usize = 0;
    while i < n
        invariant
            n == s@.len(),
            i <= n,
            in_token ==> start < i && !is_space(s@[i - 1]) && r.deep_view().push(
                s@.subrange(start as int, i as int),
            ) == tokens(s@.take(i as int)),
            !in_token ==> (i == 0 || is_space(s@[i - 1])) && r.deep_view() == tokens(
                s@.take(i as int),
            ),
        decreases n - i,
    {
        let c = s.get_char(i);
        assert(s@.take(i + 1).drop_last() =~= s@.take(i as int));
        if is_space_char(c) {
            if in_token {
                let ghost before = r.deep_view();
                r.push(String::from_str(s.substring_char(start, i)));
                assert(r.deep_view() =~= before.push(s@.subrange(start as int, i as int)));
                in_token = false;
            }
        } else {
            if in_token {
                assert(s@.subrange(start as int, i + 1) =~= s@.subrange(start as int, i as int).push(
                    c,
                ));
                assert(tokens(s@.take(i + 1)) =~= r.deep_view().push(
                    s@.subrange(start as int, i + 1),
                ));
            } else {
                start = i;
                assert(s@.subrange(start as int, i + 1) =~= seq![c]);
            }
            in_token = true;
        }
        i = i + 1;
    }
    assert(s@.take(n as int) =~= s@);
    if in_token {
        let ghost before = r.deep_view();
        r.push(String::from_str(s.substring_char(start, n)));
        assert(r.deep_view() =~= before.push(s@.subrange(start as int, n as int)));
    }
    r
}


/// A well-formed token: non-empty, with no whitespace in it.
pub open spec fn is_token(t: Seq<char>) -> bool {
    t.len() > 0 && forall|i: int| 0 <= i < t.len() ==> !is_space(#[trigger] t[i])
}

/// `parts` joined with a single space between each two of them.
pub open spec fn join_spaced(parts: Seq<Seq<char>>) -> Seq<char>
    decreases parts.len(),
{
    if parts.len() == 0 {
        seq![]
    } else if parts.len() == 1 {
        parts[0]
    } else {
        join_spaced(parts.drop_last()) + seq![' '] + parts.last()
    }
}

/// A token written after a whitespace character, or at the start, is a new
/// token.
proof fn lemma_tokens_append(p: Seq<char>, t: Seq<char>)
    requires
        p.len() == 0 || is_space(p.last()),
        is_token(t),
    ensures
        tokens(p + t) == tokens(p).push(t),
    decreases t.len(),
{
    if t.len() == 1 {
        assert((p + t).drop_last() =~= p);
        assert(seq![t[0]] =~= t);
    } else {
        let t2 = t.drop_last();
        assert(is_token(t2)) by {
            assert forall|i: int| 0 <= i < t2.len() implies !is_space(#[trigger] t2[i]) by {
                assert(t2[i] == t[i]);
            }
        }
        lemma_tokens_append(p, t2);
        assert((p + t).drop_last() =~= p + t2);
        assert((p + t2).last() == t2.last());
        assert(t2.push(t.last()) =~= t);
        assert(tokens(p).push(t2).update(tokens(p).len() as int, t) =~= tokens(p).push(t));
    }
}

/// Reading tokens joined by single spaces gives the tokens back.
proof fn lemma_tokens_join_spaced(parts: Seq<Seq<char>>)
    requires
        parts.len() > 0,
        forall|i: int| 0 <= i < parts.len() ==> is_token(#[trigger] parts[i]),
    ensures
        tokens(join_spaced(parts)) == parts,
    decreases parts.len(),
{
    if parts.len() == 1 {
        lemma_tokens_append(seq![], parts[0]);
        assert(Seq::<char>::empty() + parts[0] =~= parts[0]);
        assert(seq![parts[0]] =~= parts);
    } else {
        let init = parts.drop_last();
        assert forall|i: int| 0 <= i < init.len() implies is_token(#[trigger] init[i]) by {
            assert(init[i] == parts[i]);
        }
        lemma_tokens_join_spaced(init);
        let p = join_spaced(init) + seq![' '];
        assert(p.drop_last() =~= join_spaced(init));
        assert(is_token(parts[parts.len() - 1]));
        lemma_tokens_append(p, parts.last());
        assert(init.push(parts.last()) =~= parts);
    }
}

/// Reading a string of tokens joined by single spaces gives one compound
/// selector per token: the last token's first, then each token to its left,
/// each holding exactly the `#` and `.` names of its token in order.
pub proof fn lemma_chain_of_spaced_tokens(parts: Seq<Seq<char>>)
    requires
        parts.len() > 0,
        forall|i: int| 0 <= i < parts.len() ==> is_token(#[trigger] parts[i]),
    ensures
        chain_of(join_spaced(parts)).len() == parts.len(),
        forall|i: int|
            0 <= i < parts.len() ==> #[trigger] chain_of(join_spaced(parts))[i] == compound_of(
                parts[parts.len() - 1 - i],
            ),
{
    lemma_tokens_join_spaced(parts);
}

/// Reading is deterministic: two selectors read from the same string have
/// the same chain of compound selectors.
pub proof fn lemma_read_deterministic(a: Selector, b: Selector, s: Seq<char>)
    requires
        a.chain() == chain_of(s),
        b.chain() == chain_of(s),
    ensures
        a.chain() == b.chain(),
{
}

} // verus!
