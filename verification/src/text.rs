use vstd::prelude::*;

verus! {

/// Whether `std` counts the character as white space.
pub uninterp spec fn is_white_space(c: char) -> bool;

/// The upper-case form that `std` gives a text.
pub uninterp spec fn uppercase_of(s: Seq<char>) -> Seq<char>;

/// The lower-case form that `std` gives a text.
pub uninterp spec fn lowercase_of(s: Seq<char>) -> Seq<char>;

/// `char::is_whitespace`: the answer depends on the character alone, so it
/// is given the name `is_white_space`.
#[verifier::external_body]
pub(crate) fn char_is_whitespace(c: char) -> (b: bool)
    ensures
        b == is_white_space(c),
{
    c.is_whitespace()
}

/// `str::to_uppercase`: the result depends on the text alone, so it is given
/// the name `uppercase_of`.
#[verifier::external_body]
pub(crate) fn to_uppercase(s: &str) -> (r: String)
    ensures
        r@ == uppercase_of(s@),
{
    s.to_uppercase()
}

/// `str::to_lowercase`: the result depends on the text alone, so it is given
/// the name `lowercase_of`.
#[verifier::external_body]
pub(crate) fn to_lowercase(s: &str) -> (r: String)
    ensures
        r@ == lowercase_of(s@),
{
    s.to_lowercase()
}

/// `String::push` appends one character.
pub assume_specification[ String::push ](s: &mut String, c: char)
    ensures
        final(s)@ == old(s)@.push(c),
;

/// The characters of a text, one by one.
pub fn to_chars(s: &str) -> (out: Vec<char>)
    ensures
        out@ == s@,
{
    let mut out: Vec<char> = Vec::new();
    for c in it: s.chars()
        invariant
            it.seq() == s@,
            out@ == s@.take(it.index() as int),
    {
        out.push(c);
        assert(s@.take(it.index() + 1) == s@.take(it.index() as int).push(s@[it.index() as int]));
    }
    assert(s@.take(s@.len() as int) == s@);
    out
}

/// The rule by which a text is cut into fields.
#[derive(Clone, Copy, Debug, PartialEq, Eq, Structural)]
pub enum Separator {
    /// A line feed ends a line.
    Newline,
    /// A comma parts two operands.
    Comma,
    /// Any white space parts two words.
    Blank,
}

impl Separator {
    /// Whether `c` is a separator under this rule.
    pub open spec fn splits(self, c: char) -> bool {
        match self {
            Separator::Newline => c == '\n',
            Separator::Comma => c == ',',
            Separator::Blank => is_white_space(c),
        }
    }

    /// Tests one character against the rule.
    pub fn matches(&self, c: char) -> (b: bool)
        ensures
            b == self.splits(c),
    {
        match self {
            Separator::Newline => c == '\n',
            Separator::Comma => c == ',',
            Separator::Blank => char_is_whitespace(c),
        }
    }
}

/// The fields of `s`: what stands before, between and after its separators.
/// A text with `n` separators has `n + 1` fields, some of them possibly
/// empty.
pub open spec fn fields(s: Seq<char>, sep: Separator) -> Seq<Seq<char>>
    decreases s.len(),
{
    if s.len() == 0 {
        seq![Seq::<char>::empty()]
    } else {
        let before = fields(s.drop_last(), sep);
        if sep.splits(s.last()) {
            before.push(Seq::<char>::empty())
        } else {
            before.drop_last().push(before.last().push(s.last()))
        }
    }
}

/// The members of `parts` that are not empty, in their order.
pub open spec fn filled(parts: Seq<Seq<char>>) -> Seq<Seq<char>>
    decreases parts.len(),
{
    if parts.len() == 0 {
        Seq::<Seq<char>>::empty()
    } else if parts.last().len() > 0 {
        filled(parts.drop_last()).push(parts.last())
    } else {
        filled(parts.drop_last())
    }
}

/// The pieces of `s`: its maximal runs of characters that are no separators.
pub open spec fn pieces(s: Seq<char>, sep: Separator) -> Seq<Seq<char>> {
    filled(fields(s, sep))
}

/// `parts` written one after the other with `sep` between neighbours.
pub open spec fn joined(parts: Seq<Seq<char>>, sep: char) -> Seq<char>
    decreases parts.len(),
{
    if parts.len() == 0 {
        Seq::<char>::empty()
    } else if parts.len() == 1 {
        parts[0]
    } else {
        joined(parts.drop_last(), sep).push(sep) + parts.last()
    }
}

/// The character sequences that a list of strings holds.
pub open spec fn texts(v: Seq<String>) -> Seq<Seq<char>> {
    Seq::new(v.len(), |i: int| v[i]@)
}

/// Appending a string appends its characters to the list of texts.
pub proof fn lemma_texts_push(v: Seq<String>, t: String)
    ensures
        texts(v.push(t)) == texts(v).push(t@),
{
    assert(texts(v.push(t)) =~= texts(v).push(t@));
}

/// A text always has at least one field.
pub proof fn lemma_fields_nonempty(s: Seq<char>, sep: Separator)
    ensures
        fields(s, sep).len() >= 1,
    decreases s.len(),
{
    if s.len() > 0 {
        lemma_fields_nonempty(s.drop_last(), sep);
    }
}

/// No field holds a separator.
pub proof fn lemma_fields_hold_no_separator(s: Seq<char>, sep: Separator)
    ensures
        forall|i: int, j: int|
            0 <= i < fields(s, sep).len() && 0 <= j < fields(s, sep)[i].len() ==> !sep.splits(
                #[trigger] fields(s, sep)[i][j],
            ),
    decreases s.len(),
{
    if s.len() > 0 {
        lemma_fields_nonempty(s.drop_last(), sep);
        lemma_fields_hold_no_separator(s.drop_last(), sep);
    }
}

/// The non-empty members of a list are members of it, and none of them is
/// empty.
pub proof fn lemma_filled_members(parts: Seq<Seq<char>>)
    ensures
        forall|k: int|
            0 <= k < filled(parts).len() ==> (#[trigger] filled(parts)[k]).len() > 0
                && parts.contains(filled(parts)[k]),
    decreases parts.len(),
{
    if parts.len() > 0 {
        lemma_filled_members(parts.drop_last());
        assert forall|k: int| 0 <= k < filled(parts).len() implies (#[trigger] filled(
            parts,
        )[k]).len() > 0 && parts.contains(filled(parts)[k]) by {
            if parts.last().len() > 0 && k == filled(parts).len() - 1 {
                assert(parts[parts.len() - 1] == filled(parts)[k]);
            } else {
                let p = filled(parts.drop_last())[k];
                let w = choose|w: int| 0 <= w < parts.drop_last().len() && parts.drop_last()[w] == p;
                assert(parts[w] == p);
            }
        }
    }
}

/// Every piece of a text is a word: it is not empty and holds no
/// separator.
pub proof fn lemma_pieces_are_words(s: Seq<char>, sep: Separator)
    ensures
        forall|k: int|
            0 <= k < pieces(s, sep).len() ==> (#[trigger] pieces(s, sep)[k]).len() > 0 && forall|
                j: int,
            |
                0 <= j < pieces(s, sep)[k].len() ==> !sep.splits(#[trigger] pieces(s, sep)[k][j]),
{
    lemma_filled_members(fields(s, sep));
    lemma_fields_hold_no_separator(s, sep);
    assert forall|k: int| 0 <= k < pieces(s, sep).len() implies (#[trigger] pieces(s, sep)[k]).len()
        > 0 && forall|j: int|
        0 <= j < pieces(s, sep)[k].len() ==> !sep.splits(#[trigger] pieces(s, sep)[k][j]) by {
        let piece = pieces(s, sep)[k];
        assert(fields(s, sep).contains(piece));
        let i = choose|i: int| 0 <= i < fields(s, sep).len() && fields(s, sep)[i] == piece;
        assert forall|j: int| 0 <= j < piece.len() implies !sep.splits(#[trigger] piece[j]) by {
            assert(fields(s, sep)[i][j] == piece[j]);
        }
    }
}

/// Cutting a text at one character loses nothing: its fields, joined by
/// that character, are the text again.
pub proof fn lemma_fields_rejoin(s: Seq<char>, sep: Separator, mark: char)
    requires
        forall|c: char| sep.splits(c) <==> c == mark,
    ensures
        joined(fields(s, sep), mark) == s,
    decreases s.len(),
{
    if s.len() == 0 {
        assert(fields(s, sep)[0] =~= s);
    } else {
        let front = s.drop_last();
        let before = fields(front, sep);
        lemma_fields_nonempty(front, sep);
        lemma_fields_rejoin(front, sep, mark);
        assert(s =~= front.push(s.last()));
        if sep.splits(s.last()) {
            let all = before.push(Seq::<char>::empty());
            assert(all.drop_last() =~= before);
            assert(joined(all, mark) =~= joined(before, mark).push(mark));
        } else {
            let last = before.last().push(s.last());
            let all = before.drop_last().push(last);
            assert(all.drop_last() =~= before.drop_last());
            assert(joined(all, mark) =~= joined(before, mark).push(s.last()));
        }
    }
}

/// Cuts `s` into all its fields.
pub fn split_fields(s: &str, sep: Separator) -> (out: Vec<String>)
    ensures
        texts(out@) == fields(s@, sep),
{
    let mut done: Vec<String> = Vec::new();
    let mut current = String::new();
    for c in it: s.chars()
        invariant
            it.seq() == s@,
            fields(s@.take(it.index() as int), sep).len() >= 1,
            texts(done@) == fields(s@.take(it.index() as int), sep).drop_last(),
            current@ == fields(s@.take(it.index() as int), sep).last(),
    {
        let ghost prefix = s@.take(it.index() as int);
        let ghost next = s@.take(it.index() + 1);
        proof {
            assert(next.drop_last() == prefix);
            assert(next.last() == c);
            lemma_fields_nonempty(next, sep);
        }
        if sep.matches(c) {
            proof {
                lemma_texts_push(done@, current);
                let f = fields(prefix, sep);
                assert(f.drop_last().push(f.last()) =~= f);
                assert(f.push(Seq::<char>::empty()).drop_last() =~= f);
            }
            done.push(current);
            current = String::new();
        } else {
            current.push(c);
            assert(texts(done@) =~= fields(next, sep).drop_last());
        }
    }
    proof {
        assert(s@.take(s@.len() as int) == s@);
    }
    proof {
        lemma_texts_push(done@, current);
        let f = fields(s@, sep);
        assert(f.drop_last().push(f.last()) =~= f);
    }
    done.push(current);
    done
}

/// Cuts `s` into its pieces.
pub fn split_pieces(s: &str, sep: Separator) -> (out: Vec<String>)
    ensures
        texts(out@) == pieces(s@, sep),
{
    let mut done: Vec<String> = Vec::new();
    let mut current = String::new();
    let mut started = false;
    for c in it: s.chars()
        invariant
            it.seq() == s@,
            fields(s@.take(it.index() as int), sep).len() >= 1,
            texts(done@) == filled(fields(s@.take(it.index() as int), sep).drop_last()),
            current@ == fields(s@.take(it.index() as int), sep).last(),
            started == (current@.len() > 0),
    {
        let ghost prefix = s@.take(it.index() as int);
        let ghost next = s@.take(it.index() + 1);
        proof {
            assert(next.drop_last() == prefix);
            assert(next.last() == c);
            lemma_fields_nonempty(next, sep);
        }
        if sep.matches(c) {
            proof {
                assert(fields(next, sep).drop_last() == fields(prefix, sep));
            }
            if started {
                proof {
                    lemma_texts_push(done@, current);
                }
                done.push(current);
                current = String::new();
                started = false;
            }
        } else {
            current.push(c);
            started = true;
            proof {
                assert(fields(next, sep).drop_last() == fields(prefix, sep).drop_last());
            }
        }
    }
    proof {
        assert(s@.take(s@.len() as int) == s@);
    }
    if started {
        proof {
            lemma_texts_push(done@, current);
        }
        done.push(current);
    }
    done
}

/// Whether two texts hold the same characters.
pub fn same_text(a: &str, b: &str) -> (out: bool)
    ensures
        out == (a@ == b@),
{
    let left = to_chars(a);
    let right = to_chars(b);
    if left.len() != right.len() {
        return false;
    }
    let mut i: usize = 0;
    while i < left.len()
        invariant
            i <= left.len(),
            left.len() == right.len(),
            left@ == a@,
            right@ == b@,
            left@.take(i as int) == right@.take(i as int),
        decreases left.len() - i,
    {
        if left[i] != right[i] {
            assert(left@[i as int] != right@[i as int]);
            return false;
        }
        assert(left@.take(i + 1) == left@.take(i as int).push(left@[i as int]));
        assert(right@.take(i + 1) == right@.take(i as int).push(right@[i as int]));
        i += 1;
    }
    assert(left@.take(left.len() as int) == left@);
    assert(right@.take(right.len() as int) == right@);
    true
}

/// Strips white space at both ends of `s` and puts one space in place of
/// every run of white space inside it.
pub fn trim_whitespace(s: &str) -> (out: String)
    ensures
        out@ == joined(pieces(s@, Separator::Blank), ' '),
{
    let words = split_pieces(s, Separator::Blank);
    let mut out = String::new();
    let mut i: usize = 0;
    while i < words.len()
        invariant
            i <= words.len(),
            out@ == joined(texts(words@).take(i as int), ' '),
        decreases words.len() - i,
    {
        let ghost before = texts(words@).take(i as int);
        let ghost after = texts(words@).take(i + 1);
        proof {
            assert(after.drop_last() == before);
            assert(after.last() == words@[i as int]@);
        }
        if i > 0 {
            out.push(' ');
        }
        out.append(words[i].as_str());
        i += 1;
    }
    proof {
        assert(texts(words@).take(words.len() as int) == texts(words@));
    }
    out
}

} // verus!
