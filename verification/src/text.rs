//! Lines as sequences of characters: the words of a line, which are what
//! stands between its white space; the fields of a line between its
//! separators; parts put together; and a line without the white space
//! around it. With them stands what is taken for granted of the standard
//! library's strings.

use vstd::prelude::*;
use vstd::string::*;

verus! {

/// `String::push` appends the character to the end of the string.
pub assume_specification[ String::push ](s: &mut String, ch: char)
    ensures
        final(s)@ == old(s)@.push(ch),
;

/// `String::pop` takes the last character off the string and returns it, or
/// returns `None` and leaves an empty string empty.
pub assume_specification[ String::pop ](s: &mut String) -> (ch: Option<char>)
    ensures
        match ch {
            Some(c) => old(s)@.len() > 0 && c == old(s)@.last() && final(s)@ == old(
                s,
            )@.drop_last(),
            None => old(s)@.len() == 0 && final(s)@ == old(s)@,
        },
;

/// Equality of string slices is equality of their characters.
pub assume_specification[ <str as PartialEq>::eq ](a: &str, b: &str) -> (same: bool)
    ensures
        same == (a@ == b@),
;

/// The fields of `s` between the occurrences of `sep`, read character by
/// character: a separator closes the field before it and opens a new, empty
/// one; any other character extends the last field. A sequence without a
/// separator is one field, so there is always at least one, and two
/// separators in a row enclose an empty field.
pub open spec fn split(s: Seq<char>, sep: char) -> Seq<Seq<char>>
    decreases s.len(),
{
    if s.len() == 0 {
        seq![Seq::<char>::empty()]
    } else {
        let before = split(s.drop_last(), sep);
        if s.last() == sep {
            before.push(Seq::<char>::empty())
        } else {
            before.drop_last().push(before.last().push(s.last()))
        }
    }
}

/// The parts put together, with `sep` between neighbours.
pub open spec fn joined(parts: Seq<Seq<char>>, sep: Seq<char>) -> Seq<char>
    decreases parts.len(),
{
    if parts.len() == 0 {
        Seq::<char>::empty()
    } else if parts.len() == 1 {
        parts[0]
    } else {
        joined(parts.drop_last(), sep) + sep + parts.last()
    }
}

/// How often `sep` occurs in `s`.
pub open spec fn occurrences(s: Seq<char>, sep: char) -> nat
    decreases s.len(),
{
    if s.len() == 0 {
        0
    } else if s.last() == sep {
        occurrences(s.drop_last(), sep) + 1
    } else {
        occurrences(s.drop_last(), sep)
    }
}

/// Splitting yields one field more than there are separators, so never none.
pub proof fn lemma_split_len(s: Seq<char>, sep: char)
    ensures
        split(s, sep).len() == occurrences(s, sep) + 1,
    decreases s.len(),
{
    if s.len() > 0 {
        lemma_split_len(s.drop_last(), sep);
    }
}

/// No field of a split holds the separator.
pub proof fn lemma_split_fields_free(s: Seq<char>, sep: char)
    ensures
        forall|i: int|
            0 <= i < split(s, sep).len() ==> !(#[trigger] split(s, sep)[i]).contains(sep),
    decreases s.len(),
{
    if s.len() > 0 {
        let before = split(s.drop_last(), sep);
        lemma_split_len(s.drop_last(), sep);
        lemma_split_fields_free(s.drop_last(), sep);
        if s.last() != sep {
            let grown = before.last().push(s.last());
            assert forall|k: int| 0 <= k < grown.len() implies grown[k] != sep by {
                if k < before.last().len() {
                    assert(before.last()[k] == grown[k]);
                    assert(!before[before.len() - 1].contains(sep));
                }
            }
        }
    }
}

/// Joining the fields of a split with the separator gives the line back:
/// splitting loses nothing and invents nothing.
pub proof fn lemma_join_split(s: Seq<char>, sep: char)
    ensures
        joined(split(s, sep), seq![sep]) == s,
    decreases s.len(),
{
    let by = seq![sep];
    if s.len() == 0 {
        assert(split(s, sep).len() == 1);
        assert(joined(split(s, sep), by) =~= s);
    } else {
        let init = s.drop_last();
        let before = split(init, sep);
        lemma_split_len(init, sep);
        lemma_join_split(init, sep);
        if s.last() == sep {
            let all = before.push(Seq::<char>::empty());
            assert(all.drop_last() =~= before);
            assert(joined(all, by) =~= joined(before, by) + by + Seq::<char>::empty());
            assert(joined(all, by) =~= s);
        } else {
            let grown = before.last().push(s.last());
            let all = before.drop_last().push(grown);
            if before.len() == 1 {
                assert(joined(before, by) == before[0]);
                assert(all[0] == init.push(s.last()));
                assert(init.push(s.last()) =~= s);
            } else {
                let front = joined(before.drop_last(), by);
                assert(all.drop_last() =~= before.drop_last());
                assert(joined(before, by) == front + by + before.last());
                assert(joined(all, by) =~= front + by + grown);
                assert(front + by + grown =~= init.push(s.last()));
                assert(init.push(s.last()) =~= s);
            }
        }
    }
}

/// A line without a separator is one field.
pub proof fn lemma_split_plain(s: Seq<char>, sep: char)
    requires
        !s.contains(sep),
    ensures
        split(s, sep) == seq![s],
    decreases s.len(),
{
    if s.len() == 0 {
        assert(s =~= Seq::<char>::empty());
    } else {
        let init = s.drop_last();
        assert(s[s.len() - 1] != sep);
        assert forall|i: int| 0 <= i < init.len() implies init[i] != sep by {
            assert(init[i] == s[i]);
        }
        lemma_split_plain(init, sep);
        assert(split(s, sep) =~= seq![init.push(s.last())]);
        assert(init.push(s.last()) =~= s);
    }
}

/// The fields of two lines with a separator between them are the fields of
/// the one followed by the fields of the other.
pub proof fn lemma_split_concat(a: Seq<char>, b: Seq<char>, sep: char)
    ensures
        split(a + seq![sep] + b, sep) == split(a, sep) + split(b, sep),
    decreases b.len(),
{
    let whole = a + seq![sep] + b;
    lemma_split_len(b, sep);
    if b.len() == 0 {
        assert(whole.drop_last() =~= a);
        assert(split(whole, sep) =~= split(a, sep) + split(b, sep));
    } else {
        let init = b.drop_last();
        let front = a + seq![sep] + init;
        lemma_split_concat(a, init, sep);
        lemma_split_len(init, sep);
        assert(whole.drop_last() =~= front);
        assert(whole.last() == b.last());
        let s = split(front, sep);
        if b.last() == sep {
            assert(split(whole, sep) =~= split(a, sep) + split(b, sep));
        } else {
            assert(s.last() == split(init, sep).last());
            assert(s.drop_last() =~= split(a, sep) + split(init, sep).drop_last());
            assert(split(whole, sep) =~= split(a, sep) + split(b, sep));
        }
    }
}

/// Fields that hold no separator come back when the line that was joined
/// from them is split again.
pub proof fn lemma_split_join(fields: Seq<Seq<char>>, sep: char)
    requires
        fields.len() >= 1,
        forall|i: int| 0 <= i < fields.len() ==> !(#[trigger] fields[i]).contains(sep),
    ensures
        split(joined(fields, seq![sep]), sep) == fields,
    decreases fields.len(),
{
    if fields.len() == 1 {
        lemma_split_plain(fields[0], sep);
        assert(seq![fields[0]] =~= fields);
    } else {
        let front = fields.drop_last();
        assert forall|i: int| 0 <= i < front.len() implies !(#[trigger] front[i]).contains(
            sep,
        ) by {
            assert(front[i] == fields[i]);
        }
        lemma_split_join(front, sep);
        lemma_split_plain(fields.last(), sep);
        lemma_split_concat(joined(front, seq![sep]), fields.last(), sep);
        assert(front + seq![fields.last()] =~= fields);
    }
}

/// The view of an optional text.
pub open spec fn text_view(text: Option<&str>) -> Option<Seq<char>> {
    match text {
        Some(t) => Some(t@),
        None => None,
    }
}

/// The views of the strings of `v`, in order.
pub open spec fn views(v: Seq<String>) -> Seq<Seq<char>> {
    v.map_values(|s: String| s@)
}

/// Splits `line` at every occurrence of `sep`.
pub fn split_line(line: &str, sep: char) -> (fields: Vec<String>)
    ensures
        views(fields@) == split(line@, sep),
        fields@.len() >= 1,
{
    let mut fields: Vec<String> = Vec::new();
    let mut current = String::new();
    assert(line@.take(0) =~= Seq::<char>::empty());
    assert(views(fields@).push(current@) =~= split(line@.take(0), sep));
    for ch in it: line.chars()
        invariant
            it.seq() == line@,
            views(fields@).push(current@) == split(line@.take(it.index()), sep),
    {
        proof {
            let upto = line@.take(it.index() + 1);
            assert(upto.drop_last() =~= line@.take(it.index()));
            assert(upto.last() == ch);
        }
        if ch == sep {
            let ghost closed = views(fields@).push(current@);
            fields.push(current);
            current = String::new();
            assert(views(fields@) =~= closed);
        } else {
            let ghost open = views(fields@).push(current@);
            current.push(ch);
            assert(views(fields@).push(current@) =~= open.drop_last().push(
                open.last().push(ch),
            ));
        }
    }
    assert(line@.take(line@.len() as int) =~= line@);
    let ghost all = views(fields@).push(current@);
    fields.push(current);
    assert(views(fields@) =~= all);
    fields
}

/// The characters that Unicode gives the property `White_Space`.
pub open spec fn is_white_space(c: char) -> bool {
    ||| '\u{9}' <= c <= '\u{d}'
    ||| c == ' '
    ||| c == '\u{85}'
    ||| c == '\u{a0}'
    ||| c == '\u{1680}'
    ||| '\u{2000}' <= c <= '\u{200a}'
    ||| c == '\u{2028}'
    ||| c == '\u{2029}'
    ||| c == '\u{202f}'
    ||| c == '\u{205f}'
    ||| c == '\u{3000}'
}

/// Tells whether a character is white space.
pub fn is_space(c: char) -> (b: bool)
    ensures
        b == is_white_space(c),
{
    ('\u{9}' <= c && c <= '\u{d}') || c == ' ' || c == '\u{85}' || c == '\u{a0}' || c
        == '\u{1680}' || ('\u{2000}' <= c && c <= '\u{200a}') || c == '\u{2028}' || c
        == '\u{2029}' || c == '\u{202f}' || c == '\u{205f}' || c == '\u{3000}'
}

/// Whether `w` is a word: at least one character, and no white space.
pub open spec fn is_word(w: Seq<char>) -> bool {
    w.len() > 0 && forall|i: int| 0 <= i < w.len() ==> !is_white_space(#[trigger] w[i])
}

/// The words of `s`: the longest runs of characters that are not white
/// space, in order. White space only parts the words, however much of it
/// there is, and at either end it counts for nothing; a sequence of white
/// space alone has no words. Read character by character: white space adds
/// nothing, a character behind another character of a word extends that
/// word, and any other character begins a new word.
pub open spec fn words(s: Seq<char>) -> Seq<Seq<char>>
    decreases s.len(),
{
    if s.len() == 0 {
        Seq::<Seq<char>>::empty()
    } else {
        let before = words(s.drop_last());
        if is_white_space(s.last()) {
            before
        } else if s.len() >= 2 && !is_white_space(s[s.len() - 2]) {
            before.drop_last().push(before.last().push(s.last()))
        } else {
            before.push(seq![s.last()])
        }
    }
}

/// A sequence that ends in a character of a word has a word.
pub proof fn lemma_words_open(s: Seq<char>)
    requires
        s.len() > 0,
        !is_white_space(s.last()),
    ensures
        words(s).len() >= 1,
        words(s).last().len() >= 1,
        words(s).last().last() == s.last(),
    decreases s.len(),
{
    if s.len() >= 2 && !is_white_space(s[s.len() - 2]) {
        let init = s.drop_last();
        assert(init.last() == s[s.len() - 2]);
        lemma_words_open(init);
    }
}

/// Every word of a sequence is a word: it is not empty and holds no white
/// space.
pub proof fn lemma_words_are_words(s: Seq<char>)
    ensures
        forall|k: int| 0 <= k < words(s).len() ==> is_word(#[trigger] words(s)[k]),
    decreases s.len(),
{
    if s.len() > 0 {
        let init = s.drop_last();
        let before = words(init);
        lemma_words_are_words(init);
        if is_white_space(s.last()) {
        } else if s.len() >= 2 && !is_white_space(s[s.len() - 2]) {
            assert(init.last() == s[s.len() - 2]);
            lemma_words_open(init);
            let grown = before.last().push(s.last());
            assert(is_word(before[before.len() - 1]));
            assert forall|i: int| 0 <= i < grown.len() implies !is_white_space(
                #[trigger] grown[i],
            ) by {
                if i < before.last().len() {
                    assert(grown[i] == before.last()[i]);
                }
            }
            assert(is_word(grown));
        } else {
            assert(is_word(seq![s.last()]));
        }
    }
}

/// A word is its own and only word.
pub proof fn lemma_words_plain(w: Seq<char>)
    requires
        is_word(w),
    ensures
        words(w) == seq![w],
    decreases w.len(),
{
    if w.len() == 1 {
        assert(w.drop_last() =~= Seq::<char>::empty());
        assert(words(w.drop_last()) =~= Seq::<Seq<char>>::empty());
        assert(!is_white_space(w[0]));
        assert(words(w) =~= seq![seq![w.last()]]);
        assert(seq![w.last()] =~= w);
    } else {
        let init = w.drop_last();
        assert(is_word(init)) by {
            assert forall|i: int| 0 <= i < init.len() implies !is_white_space(
                #[trigger] init[i],
            ) by {
                assert(init[i] == w[i]);
            }
        }
        lemma_words_plain(init);
        assert(!is_white_space(w[w.len() - 1]));
        assert(!is_white_space(w[w.len() - 2]));
        assert(words(w) =~= seq![init.push(w.last())]);
        assert(init.push(w.last()) =~= w);
    }
}

/// The words of two sequences with white space between them are the words
/// of the one followed by the words of the other.
pub proof fn lemma_words_concat(a: Seq<char>, b: Seq<char>, gap: char)
    requires
        is_white_space(gap),
    ensures
        words(a + seq![gap] + b) == words(a) + words(b),
    decreases b.len(),
{
    let whole = a + seq![gap] + b;
    if b.len() == 0 {
        assert(whole.drop_last() =~= a);
        assert(words(whole) =~= words(a) + words(b));
    } else {
        let init = b.drop_last();
        let front = a + seq![gap] + init;
        lemma_words_concat(a, init, gap);
        assert(whole.drop_last() =~= front);
        assert(whole.last() == b.last());
        if is_white_space(b.last()) {
            assert(words(whole) =~= words(a) + words(b));
        } else if init.len() == 0 {
            assert(whole[whole.len() - 2] == gap);
            assert(words(whole) =~= words(a) + words(b));
        } else {
            assert(whole[whole.len() - 2] == b[b.len() - 2]);
            assert(init.last() == b[b.len() - 2]);
            if !is_white_space(b[b.len() - 2]) {
                lemma_words_open(init);
                assert(front.last() == init.last());
                lemma_words_open(front);
                assert(words(front).last() == words(init).last());
                assert(words(front).drop_last() =~= words(a) + words(init).drop_last());
            }
            assert(words(whole) =~= words(a) + words(b));
        }
    }
}

/// White space before a sequence adds no word.
pub proof fn lemma_words_after_gap(b: Seq<char>, gap: char)
    requires
        is_white_space(gap),
    ensures
        words(seq![gap] + b) == words(b),
{
    let none = Seq::<char>::empty();
    lemma_words_concat(none, b, gap);
    assert(none + seq![gap] + b =~= seq![gap] + b);
    assert(words(none) + words(b) =~= words(b));
}

/// Words come back when the line that was joined from them with single
/// spaces is cut into words again.
pub proof fn lemma_words_join(fields: Seq<Seq<char>>)
    requires
        forall|i: int| 0 <= i < fields.len() ==> is_word(#[trigger] fields[i]),
    ensures
        words(joined(fields, seq![' '])) == fields,
    decreases fields.len(),
{
    if fields.len() == 0 {
        assert(fields =~= Seq::<Seq<char>>::empty());
    } else if fields.len() == 1 {
        lemma_words_plain(fields[0]);
        assert(seq![fields[0]] =~= fields);
    } else {
        let front = fields.drop_last();
        assert forall|i: int| 0 <= i < front.len() implies is_word(#[trigger] front[i]) by {
            assert(front[i] == fields[i]);
        }
        lemma_words_join(front);
        lemma_words_plain(fields.last());
        lemma_words_concat(joined(front, seq![' ']), fields.last(), ' ');
        assert(front + seq![fields.last()] =~= fields);
    }
}

/// The words that have been read when `done` are closed and `current` is
/// the word being read, if any.
pub open spec fn with_open_word(done: Seq<Seq<char>>, current: Seq<char>) -> Seq<Seq<char>> {
    if current.len() > 0 {
        done.push(current)
    } else {
        done
    }
}

/// Cuts `line` into its words.
pub fn split_words(line: &str) -> (fields: Vec<String>)
    ensures
        views(fields@) == words(line@),
{
    let mut fields: Vec<String> = Vec::new();
    let mut current = String::new();
    assert(line@.take(0) =~= Seq::<char>::empty());
    assert(views(fields@) =~= Seq::<Seq<char>>::empty());
    for ch in it: line.chars()
        invariant
            it.seq() == line@,
            with_open_word(views(fields@), current@) == words(line@.take(it.index())),
            current@.len() > 0 <==> (it.index() > 0 && !is_white_space(line@[it.index() - 1])),
    {
        proof {
            let upto = line@.take(it.index() + 1);
            assert(upto.drop_last() =~= line@.take(it.index()));
            assert(upto.last() == ch);
            if it.index() > 0 {
                assert(upto[upto.len() - 2] == line@[it.index() - 1]);
            }
        }
        if is_space(ch) {
            if !current.as_str().is_empty() {
                let ghost closed = views(fields@).push(current@);
                fields.push(current);
                current = String::new();
                assert(views(fields@) =~= closed);
            }
        } else {
            let ghost before = with_open_word(views(fields@), current@);
            let ghost was = current@;
            current.push(ch);
            proof {
                if was.len() > 0 {
                    assert(before.drop_last() =~= views(fields@));
                    assert(before.last() == was);
                } else {
                    assert(current@ =~= seq![ch]);
                }
            }
        }
    }
    assert(line@.take(line@.len() as int) =~= line@);
    if !current.as_str().is_empty() {
        let ghost all = views(fields@).push(current@);
        fields.push(current);
        assert(views(fields@) =~= all);
    }
    fields
}

/// `s` without the white space it begins with.
pub open spec fn trim_start(s: Seq<char>) -> Seq<char>
    decreases s.len(),
{
    if s.len() > 0 && is_white_space(s.first()) {
        trim_start(s.drop_first())
    } else {
        s
    }
}

/// `s` without the white space it ends with.
pub open spec fn trim_end(s: Seq<char>) -> Seq<char>
    decreases s.len(),
{
    if s.len() > 0 && is_white_space(s.last()) {
        trim_end(s.drop_last())
    } else {
        s
    }
}

/// `s` without the white space at either end.
pub open spec fn trimmed(s: Seq<char>) -> Seq<char> {
    trim_end(trim_start(s))
}

/// `str::trim` returns the slice without its leading and trailing white
/// space, where white space is what Unicode's `White_Space` property says.
pub assume_specification[ str::trim ](s: &str) -> (t: &str)
    ensures
        t@ == trimmed(s@),
;

/// Puts the parts together, with `sep` between neighbours.
pub fn join_all(parts: &Vec<String>, sep: &str) -> (text: String)
    ensures
        text@ == joined(views(parts@), sep@),
{
    let mut text = String::new();
    let ghost all = views(parts@);
    let mut i: usize = 0;
    assert(all.take(0) =~= Seq::<Seq<char>>::empty());
    while i < parts.len()
        invariant
            i <= parts.len(),
            all == views(parts@),
            text@ == joined(all.take(i as int), sep@),
        decreases parts.len() - i,
    {
        proof {
            let upto = all.take(i as int + 1);
            assert(upto.drop_last() =~= all.take(i as int));
            assert(upto.last() == parts@[i as int]@);
        }
        if i > 0 {
            text.append(sep);
        } else {
            assert(text@ + parts@[0]@ =~= parts@[0]@);
        }
        text.append(parts[i].as_str());
        i += 1;
    }
    assert(all.take(parts.len() as int) =~= all);
    text
}

} // verus!
