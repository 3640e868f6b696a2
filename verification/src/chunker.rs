//! Splitting a text into message-sized chunks without breaking a word.
//!
//! A *word* is a maximal run of characters between two space characters (or
//! an end of the text); line breaks and tabs belong to words, so the layout
//! of a multi-line text survives chunking. Lengths are counted in characters.

use vstd::prelude::*;
use crate::text::{chars_of, push_char, texts};

verus! {

/// The words of `s`: the pieces between its space characters. Two adjacent
/// spaces enclose an empty word, and the empty text has one empty word.
pub open spec fn split_words(s: Seq<char>) -> Seq<Seq<char>>
    decreases s.len(),
{
    if s.len() == 0 {
        seq![Seq::<char>::empty()]
    } else {
        let before = split_words(s.drop_last());
        if s.last() == ' ' {
            before.push(Seq::<char>::empty())
        } else {
            before.update(before.len() - 1, before.last().push(s.last()))
        }
    }
}

/// Adds one word to a chunk list. The word opens a new chunk when the last
/// chunk is already longer than `limit`; otherwise it joins the last chunk,
/// after a space unless that chunk is still empty.
pub open spec fn place_word(chunks: Seq<Seq<char>>, word: Seq<char>, limit: nat) -> Seq<
    Seq<char>,
>
    recommends
        chunks.len() > 0,
{
    let last = chunks.last();
    if last.len() > limit {
        chunks.push(word)
    } else if last.len() == 0 {
        chunks.update(chunks.len() - 1, word)
    } else {
        chunks.update(chunks.len() - 1, last.push(' ') + word)
    }
}

/// Greedy packing of `words`, in order, starting from one empty chunk.
pub open spec fn pack_words(words: Seq<Seq<char>>, limit: nat) -> Seq<Seq<char>>
    decreases words.len(),
{
    if words.len() == 0 {
        seq![Seq::<char>::empty()]
    } else {
        place_word(pack_words(words.drop_last(), limit), words.last(), limit)
    }
}

/// The chunks of `text` for a budget of `limit` characters.
pub open spec fn chunk_text(text: Seq<char>, limit: nat) -> Seq<Seq<char>> {
    pack_words(split_words(text), limit)
}

/// `parts` written one after the other with a single space between
/// neighbours.
pub open spec fn join_spaced(parts: Seq<Seq<char>>) -> Seq<char>
    decreases parts.len(),
{
    if parts.len() == 0 {
        Seq::<char>::empty()
    } else if parts.len() == 1 {
        parts[0]
    } else {
        join_spaced(parts.drop_last()).push(' ') + parts.last()
    }
}

/// The non-empty entries of `words`, in order.
pub open spec fn solid(words: Seq<Seq<char>>) -> Seq<Seq<char>>
    decreases words.len(),
{
    if words.len() == 0 {
        Seq::<Seq<char>>::empty()
    } else if words.last().len() > 0 {
        solid(words.drop_last()).push(words.last())
    } else {
        solid(words.drop_last())
    }
}

/// The whitespace-normalised form of `s`: its non-empty words.
pub open spec fn normal_words(s: Seq<char>) -> Seq<Seq<char>> {
    solid(split_words(s))
}

/// The non-empty words of every chunk, chunk after chunk.
pub open spec fn words_by_chunk(chunks: Seq<Seq<char>>) -> Seq<Seq<char>>
    decreases chunks.len(),
{
    if chunks.len() == 0 {
        Seq::<Seq<char>>::empty()
    } else {
        words_by_chunk(chunks.drop_last()) + normal_words(chunks.last())
    }
}

/// `s` holds no space character.
pub open spec fn spaceless(s: Seq<char>) -> bool {
    forall|i: int| 0 <= i < s.len() ==> s[i] != ' '
}

pub proof fn lemma_split_words_nonempty(s: Seq<char>)
    ensures
        split_words(s).len() > 0,
    decreases s.len(),
{
    if s.len() > 0 {
        lemma_split_words_nonempty(s.drop_last());
    }
}

pub proof fn lemma_pack_words_nonempty(words: Seq<Seq<char>>, limit: nat)
    ensures
        pack_words(words, limit).len() > 0,
    decreases words.len(),
{
    if words.len() > 0 {
        lemma_pack_words_nonempty(words.drop_last(), limit);
    }
}

/// Chunking always yields at least one chunk.
pub proof fn lemma_chunk_text_nonempty(text: Seq<char>, limit: nat)
    ensures
        chunk_text(text, limit).len() > 0,
{
    lemma_pack_words_nonempty(split_words(text), limit);
}

/// Growing the last word by one character grows the last chunk by that
/// character and changes nothing else.
proof fn lemma_pack_grow_last(words: Seq<Seq<char>>, c: char, limit: nat)
    requires
        words.len() > 0,
    ensures
        pack_words(words.update(words.len() - 1, words.last().push(c)), limit) == ({
            let packed = pack_words(words, limit);
            packed.update(packed.len() - 1, packed.last().push(c))
        }),
{
    let grown = words.update(words.len() - 1, words.last().push(c));
    let before = pack_words(words.drop_last(), limit);
    lemma_pack_words_nonempty(words.drop_last(), limit);
    assert(grown.drop_last() =~= words.drop_last());
    let packed = pack_words(words, limit);
    let last = before.last();
    if last.len() > limit {
        assert(pack_words(grown, limit) =~= packed.update(packed.len() - 1, packed.last().push(c)));
    } else if last.len() == 0 {
        assert(pack_words(grown, limit) =~= packed.update(packed.len() - 1, packed.last().push(c)));
    } else {
        assert(last.push(' ') + words.last().push(c) =~= (last.push(' ') + words.last()).push(c));
        assert(pack_words(grown, limit) =~= packed.update(packed.len() - 1, packed.last().push(c)));
    }
}

proof fn lemma_solid_concat(a: Seq<Seq<char>>, b: Seq<Seq<char>>)
    ensures
        solid(a + b) == solid(a) + solid(b),
    decreases b.len(),
{
    if b.len() == 0 {
        assert(a + b =~= a);
        assert(solid(a) + solid(b) =~= solid(a));
    } else {
        lemma_solid_concat(a, b.drop_last());
        assert((a + b).drop_last() =~= a + b.drop_last());
        assert((a + b).last() == b.last());
        if b.last().len() > 0 {
            assert(solid(a + b) =~= solid(a) + solid(b));
        } else {
            assert(solid(a + b) =~= solid(a) + solid(b));
        }
    }
}

/// Splitting distributes over a space: the words of `a`, a space and `b`
/// are the words of `a` followed by the words of `b`.
pub proof fn lemma_split_concat(a: Seq<char>, b: Seq<char>)
    ensures
        split_words(a.push(' ') + b) == split_words(a) + split_words(b),
    decreases b.len(),
{
    let s = a.push(' ') + b;
    if b.len() == 0 {
        assert(s.drop_last() =~= a);
        assert(split_words(a) + split_words(b) =~= split_words(a).push(Seq::<char>::empty()));
    } else {
        lemma_split_concat(a, b.drop_last());
        lemma_split_words_nonempty(b.drop_last());
        assert(s.drop_last() =~= a.push(' ') + b.drop_last());
        assert(s.last() == b.last());
        let before = split_words(a) + split_words(b.drop_last());
        assert(before.last() == split_words(b.drop_last()).last());
        assert(split_words(s) =~= split_words(a) + split_words(b));
    }
}

/// A text without spaces is a single word.
pub proof fn lemma_split_spaceless(w: Seq<char>)
    requires
        spaceless(w),
    ensures
        split_words(w) == seq![w],
    decreases w.len(),
{
    if w.len() == 0 {
        assert(w =~= Seq::<char>::empty());
    } else {
        lemma_split_spaceless(w.drop_last());
        assert(w.drop_last().push(w.last()) =~= w);
        assert(split_words(w) =~= seq![w]);
    }
}

/// No word holds a space.
pub proof fn lemma_words_spaceless(s: Seq<char>)
    ensures
        forall|i: int| 0 <= i < split_words(s).len() ==> spaceless(#[trigger] split_words(s)[i]),
    decreases s.len(),
{
    if s.len() > 0 {
        lemma_words_spaceless(s.drop_last());
        lemma_split_words_nonempty(s.drop_last());
        let before = split_words(s.drop_last());
        assert forall|i: int| 0 <= i < split_words(s).len() implies spaceless(
            #[trigger] split_words(s)[i],
        ) by {
            if i < before.len() - 1 {
                assert(split_words(s)[i] == before[i]);
            } else if s.last() != ' ' && i == before.len() - 1 {
                assert(spaceless(before[i]));
            }
        }
    }
}

/// Splitting loses nothing: the words of a text, joined by single spaces,
/// are the text again.
pub proof fn lemma_split_join(s: Seq<char>)
    ensures
        join_spaced(split_words(s)) == s,
    decreases s.len(),
{
    if s.len() == 0 {
        assert(s =~= Seq::<char>::empty());
    } else {
        let before = split_words(s.drop_last());
        lemma_split_join(s.drop_last());
        lemma_split_words_nonempty(s.drop_last());
        if s.last() == ' ' {
            let words = before.push(Seq::<char>::empty());
            assert(words.drop_last() =~= before);
            assert(join_spaced(words) =~= s);
        } else {
            let words = before.update(before.len() - 1, before.last().push(s.last()));
            if before.len() == 1 {
                assert(join_spaced(words) =~= s);
            } else {
                let head = join_spaced(before.drop_last()).push(' ');
                assert(words.drop_last() =~= before.drop_last());
                assert(head + before.last() == s.drop_last());
                assert(head + before.last().push(s.last()) =~= (head + before.last()).push(
                    s.last(),
                ));
                assert(s.drop_last().push(s.last()) =~= s);
                assert(join_spaced(words) =~= s);
            }
        }
    }
}

proof fn lemma_normal_words_of_word(w: Seq<char>)
    requires
        spaceless(w),
    ensures
        normal_words(w) == if w.len() > 0 {
            seq![w]
        } else {
            Seq::<Seq<char>>::empty()
        },
{
    lemma_split_spaceless(w);
    let one = seq![w];
    assert(one.drop_last() =~= Seq::<Seq<char>>::empty());
    assert(solid(one.drop_last()) =~= Seq::<Seq<char>>::empty());
    if w.len() > 0 {
        assert(solid(one) =~= seq![w]);
    }
}

proof fn lemma_normal_words_concat(a: Seq<char>, b: Seq<char>)
    ensures
        normal_words(a.push(' ') + b) == normal_words(a) + normal_words(b),
{
    lemma_split_concat(a, b);
    lemma_solid_concat(split_words(a), split_words(b));
}

proof fn lemma_pack_keeps_words(words: Seq<Seq<char>>, limit: nat)
    requires
        forall|i: int| 0 <= i < words.len() ==> spaceless(#[trigger] words[i]),
    ensures
        words_by_chunk(pack_words(words, limit)) == solid(words),
    decreases words.len(),
{
    let none = Seq::<Seq<char>>::empty();
    if words.len() == 0 {
        let one = seq![Seq::<char>::empty()];
        lemma_normal_words_of_word(Seq::<char>::empty());
        assert(one.drop_last() =~= Seq::<Seq<char>>::empty());
        assert(words_by_chunk(one.drop_last()) =~= none);
        assert(words_by_chunk(one) =~= none);
    } else {
        let rest = words.drop_last();
        let x = words.last();
        let packed = pack_words(rest, limit);
        lemma_pack_keeps_words(rest, limit);
        lemma_pack_words_nonempty(rest, limit);
        lemma_normal_words_of_word(x);
        let last = packed.last();
        let next = pack_words(words, limit);
        if last.len() > limit {
            assert(next.drop_last() =~= packed);
        } else if last.len() == 0 {
            assert(next.drop_last() =~= packed.drop_last());
            assert(last =~= Seq::<char>::empty());
            lemma_normal_words_of_word(last);
            assert(words_by_chunk(packed) =~= words_by_chunk(packed.drop_last()));
        } else {
            assert(next.drop_last() =~= packed.drop_last());
            lemma_normal_words_concat(last, x);
            assert(words_by_chunk(next) =~= words_by_chunk(packed) + normal_words(x));
        }
        assert(words_by_chunk(next) =~= words_by_chunk(packed) + normal_words(x));
        assert(solid(words) =~= solid(rest) + normal_words(x));
    }
}

proof fn lemma_join_words(chunks: Seq<Seq<char>>)
    ensures
        normal_words(join_spaced(chunks)) == words_by_chunk(chunks),
    decreases chunks.len(),
{
    let none = Seq::<Seq<char>>::empty();
    if chunks.len() == 0 {
        lemma_normal_words_of_word(Seq::<char>::empty());
    } else if chunks.len() == 1 {
        assert(chunks.drop_last() =~= Seq::<Seq<char>>::empty());
        assert(words_by_chunk(chunks.drop_last()) =~= none);
        assert(words_by_chunk(chunks) =~= normal_words(chunks[0]));
    } else {
        lemma_join_words(chunks.drop_last());
        lemma_normal_words_concat(join_spaced(chunks.drop_last()), chunks.last());
    }
}

/// No word is divided: reading the non-empty words chunk by chunk gives
/// exactly the non-empty words of the text, in order.
pub proof fn lemma_chunks_hold_whole_words(text: Seq<char>, limit: nat)
    ensures
        words_by_chunk(chunk_text(text, limit)) == normal_words(text),
{
    lemma_words_spaceless(text);
    lemma_pack_keeps_words(split_words(text), limit);
}

/// Joining the chunks with single spaces gives a text with the same
/// whitespace-normalised form as the text itself.
pub proof fn lemma_rejoined_chunks_normalise(text: Seq<char>, limit: nat)
    ensures
        normal_words(join_spaced(chunk_text(text, limit))) == normal_words(text),
{
    lemma_chunks_hold_whole_words(text, limit);
    lemma_join_words(chunk_text(text, limit));
}

/// The length of the longest of `words`.
pub open spec fn longest(words: Seq<Seq<char>>) -> nat
    decreases words.len(),
{
    if words.len() == 0 {
        0
    } else if words.last().len() > longest(words.drop_last()) {
        words.last().len()
    } else {
        longest(words.drop_last())
    }
}

proof fn lemma_pack_lengths(words: Seq<Seq<char>>, limit: nat)
    ensures
        forall|i: int|
            0 <= i < pack_words(words, limit).len() ==> (#[trigger] pack_words(words, limit)[i]).len()
                <= limit + 1 + longest(words),
        forall|i: int|
            0 <= i < pack_words(words, limit).len() - 1 ==> (#[trigger] pack_words(
                words,
                limit,
            )[i]).len() > limit,
    decreases words.len(),
{
    if words.len() > 0 {
        let rest = words.drop_last();
        let packed = pack_words(rest, limit);
        let next = pack_words(words, limit);
        lemma_pack_lengths(rest, limit);
        lemma_pack_words_nonempty(rest, limit);
        assert forall|i: int| 0 <= i < next.len() implies (#[trigger] next[i]).len() <= limit + 1
            + longest(words) by {
            if i < packed.len() - 1 {
                assert(next[i] == packed[i]);
            } else if i == packed.len() - 1 {
                assert(packed[i].len() <= limit + 1 + longest(rest));
            }
        }
        assert forall|i: int| 0 <= i < next.len() - 1 implies (#[trigger] next[i]).len()
            > limit by {
            if i < packed.len() - 1 {
                assert(next[i] == packed[i]);
            } else {
                assert(next[i] == packed[i]);
            }
        }
    }
}

/// The size of chunks. No chunk is longer than the budget, a space and the
/// longest word of the text together; and every chunk but the last is longer
/// than the budget, for only then was the next one opened.
pub proof fn lemma_chunk_lengths(text: Seq<char>, limit: nat)
    ensures
        forall|i: int|
            0 <= i < chunk_text(text, limit).len() ==> (#[trigger] chunk_text(text, limit)[i]).len()
                <= limit + 1 + longest(split_words(text)),
        forall|i: int|
            0 <= i < chunk_text(text, limit).len() - 1 ==> (#[trigger] chunk_text(
                text,
                limit,
            )[i]).len() > limit,
{
    lemma_pack_lengths(split_words(text), limit);
}

/// Splits `message` into chunks for a budget of `chunk_size` characters.
///
/// Words are appended greedily, separated by single spaces; a new chunk is
/// opened only once the current one is already longer than the budget, so a
/// chunk may run over by its final word, and no word is ever divided. The
/// result always has at least one chunk, which is empty for an empty message.
pub fn chunk_message(message: &str, chunk_size: usize) -> (chunks: Vec<String>)
    ensures
        texts(chunks@) == chunk_text(message@, chunk_size as nat),
        chunks.len() > 0,
{
    let chars = chars_of(message);
    let ghost limit = chunk_size as nat;
    let mut done: Vec<String> = Vec::new();
    let mut cur = String::new();
    let mut cur_len: usize = 0;
    let mut i: usize = 0;
    proof {
        let one = seq![Seq::<char>::empty()];
        assert(message@.take(0) =~= Seq::<char>::empty());
        assert(split_words(message@.take(0)) == one);
        assert(one.drop_last() =~= Seq::<Seq<char>>::empty());
        assert(pack_words(one.drop_last(), limit) == one);
        assert(pack_words(one, limit) =~= one);
        assert(texts(done@).push(cur@) =~= one);
    }
    while i < chars.len()
        invariant
            i <= chars.len(),
            chars@ == message@,
            limit == chunk_size as nat,
            cur_len == cur@.len(),
            cur_len <= i,
            texts(done@).push(cur@) == chunk_text(message@.take(i as int), limit),
        decreases chars.len() - i,
    {
        let c = chars[i];
        let ghost prefix = message@.take(i as int);
        let ghost words = split_words(prefix);
        let ghost packed = pack_words(words, limit);
        proof {
            lemma_split_words_nonempty(prefix);
            assert(message@.take(i + 1).drop_last() =~= prefix);
            assert(message@.take(i + 1).last() == c);
        }
        if c == ' ' {
            proof {
                assert(words.push(Seq::<char>::empty()).drop_last() =~= words);
                assert(chunk_text(message@.take(i + 1), limit) == place_word(
                    packed,
                    Seq::<char>::empty(),
                    limit,
                ));
            }
            if cur_len > chunk_size {
                done.push(cur);
                cur = String::new();
                cur_len = 0;
                assert(texts(done@).push(cur@) =~= packed.push(Seq::<char>::empty()));
            } else if cur_len > 0 {
                let ghost old_cur = cur@;
                push_char(&mut cur, ' ');
                cur_len += 1;
                assert(old_cur.push(' ') + Seq::<char>::empty() =~= old_cur.push(' '));
                assert(texts(done@).push(cur@) =~= packed.update(
                    packed.len() - 1,
                    old_cur.push(' ') + Seq::<char>::empty(),
                ));
            } else {
                assert(cur@ =~= Seq::<char>::empty());
                assert(texts(done@).push(cur@) =~= packed.update(
                    packed.len() - 1,
                    Seq::<char>::empty(),
                ));
            }
        } else {
            let ghost old_cur = cur@;
            proof {
                lemma_pack_grow_last(words, c, limit);
            }
            push_char(&mut cur, c);
            cur_len += 1;
            assert(texts(done@).push(cur@) =~= packed.update(
                packed.len() - 1,
                old_cur.push(c),
            ));
        }
        i += 1;
    }
    assert(message@.take(i as int) =~= message@);
    let ghost packed = texts(done@).push(cur@);
    done.push(cur);
    assert(texts(done@) =~= packed);
    done
}

} // verus!
