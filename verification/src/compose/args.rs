//! Command-line arguments, put together from optional settings.
use vstd::prelude::*;
use vstd::string::*;
use crate::compose::maps::OrderedMap;
use crate::compose::types::{pairs_opt, text_opt, texts_opt};
use crate::text::{join3, lemma_texts_push, texts};

verus! {

broadcast use lemma_texts_push;

/// A flag with its value, where there is one.
pub open spec fn flag_value(flag: Seq<char>, value: Option<Seq<char>>) -> Seq<Seq<char>> {
    match value {
        Some(v) => seq![flag, v],
        None => Seq::empty(),
    }
}

/// A flag before each of some values.
pub open spec fn flag_all(flag: Seq<char>, values: Seq<Seq<char>>) -> Seq<Seq<char>>
    decreases values.len(),
{
    if values.len() == 0 {
        Seq::empty()
    } else {
        flag_all(flag, values.drop_last()).push(flag).push(values.last())
    }
}

/// A flag before each of some values, where there are any.
pub open spec fn flag_each(flag: Seq<char>, values: Option<Seq<Seq<char>>>) -> Seq<Seq<char>> {
    match values {
        Some(v) => flag_all(flag, v),
        None => Seq::empty(),
    }
}

/// A key and a value with `=` between them.
pub open spec fn assignment(pair: (Seq<char>, Seq<char>)) -> Seq<char> {
    pair.0 + "="@ + pair.1
}

/// A flag before each of some assignments.
pub open spec fn flag_pairs(flag: Seq<char>, pairs: Seq<(Seq<char>, Seq<char>)>) -> Seq<Seq<char>>
    decreases pairs.len(),
{
    if pairs.len() == 0 {
        Seq::empty()
    } else {
        flag_pairs(flag, pairs.drop_last()).push(flag).push(assignment(pairs.last()))
    }
}

/// A flag before each of some assignments, where there are any.
pub open spec fn flag_pairs_opt(
    flag: Seq<char>,
    pairs: Option<Seq<(Seq<char>, Seq<char>)>>,
) -> Seq<Seq<char>> {
    match pairs {
        Some(ps) => flag_pairs(flag, ps),
        None => Seq::empty(),
    }
}

/// A flag, where a setting is on.
pub open spec fn flag_if(flag: Seq<char>, on: bool) -> Seq<Seq<char>> {
    if on {
        seq![flag]
    } else {
        Seq::empty()
    }
}

/// All words of a list, where there is one.
pub open spec fn words_of(words: Option<Seq<Seq<char>>>) -> Seq<Seq<char>> {
    match words {
        Some(v) => v,
        None => Seq::empty(),
    }
}

/// No arguments.
pub fn no_args() -> (r: Vec<String>)
    ensures
        texts(r@) == Seq::<Seq<char>>::empty(),
{
    let r: Vec<String> = Vec::new();
    assert(texts(r@) =~= Seq::<Seq<char>>::empty());
    r
}

/// Adds a word.
pub fn push_word(args: &mut Vec<String>, word: &str)
    ensures
        texts(final(args)@) == texts(old(args)@).push(word@),
{
    args.push(word.to_owned());
}

/// Adds a flag with its value.
pub fn push_value(args: &mut Vec<String>, flag: &str, value: &str)
    ensures
        texts(final(args)@) == texts(old(args)@) + flag_value(flag@, Some(value@)),
{
    args.push(flag.to_owned());
    args.push(value.to_owned());
    assert(texts(args@) =~= texts(old(args)@) + flag_value(flag@, Some(value@)));
}

/// Adds a flag with its value, where there is one.
pub fn push_opt(args: &mut Vec<String>, flag: &str, value: &Option<String>)
    ensures
        texts(final(args)@) == texts(old(args)@) + flag_value(
            flag@,
            text_opt(*value),
        ),
{
    match value {
        Some(v) => push_value(args, flag, v.as_str()),
        None => {
            assert(texts(args@) =~= texts(old(args)@) + Seq::<Seq<char>>::empty());
        },
    }
}

/// Adds a flag before each of some values.
pub fn push_each(args: &mut Vec<String>, flag: &str, values: &Option<Vec<String>>)
    ensures
        texts(final(args)@) == texts(old(args)@) + flag_each(
            flag@,
            texts_opt(*values),
        ),
{
    let ghost before = texts(args@);
    match values {
        Some(v) => {
            let ghost all = texts(v@);
            let mut i: usize = 0;
            assert(all.take(0) =~= Seq::empty());
            assert(texts(args@) =~= before + flag_all(flag@, all.take(0)));
            while i < v.len()
                invariant
                    i <= v@.len(),
                    all == texts(v@),
                    texts(args@) == before + flag_all(flag@, all.take(i as int)),
                decreases v@.len() - i,
            {
                proof {
                    assert(all.take(i + 1).drop_last() =~= all.take(i as int));
                    assert(all.take(i + 1).last() == v@[i as int]@);
                }
                args.push(flag.to_owned());
                args.push(v[i].clone());
                assert(texts(args@) =~= before + flag_all(flag@, all.take(i + 1)));
                i += 1;
            }
            assert(all.take(i as int) =~= all);
        },
        None => {
            assert(texts(args@) =~= before + Seq::<Seq<char>>::empty());
        },
    }
}

/// Adds a flag before each assignment of a map.
pub fn push_map(args: &mut Vec<String>, flag: &str, map: &OrderedMap<String>)
    ensures
        texts(final(args)@) == texts(old(args)@) + flag_pairs(flag@, map.pairs()),
{
    let ghost before = texts(args@);
    let ghost all = map.pairs();
    let mut i: usize = 0;
    assert(all.take(0) =~= Seq::empty());
    assert(texts(args@) =~= before + flag_pairs(flag@, all.take(0)));
    while i < map.len()
        invariant
            i <= map.entries().len(),
            all == map.pairs(),
            texts(args@) == before + flag_pairs(flag@, all.take(i as int)),
        decreases map.entries().len() - i,
    {
        proof {
            assert(all.take(i + 1).drop_last() =~= all.take(i as int));
            assert(all.take(i + 1).last() == all[i as int]);
        }
        args.push(flag.to_owned());
        args.push(join3(map.key_at(i).as_str(), "=", map.value_at(i).as_str()));
        assert(texts(args@) =~= before + flag_pairs(flag@, all.take(i + 1)));
        i += 1;
    }
    assert(all.take(i as int) =~= all);
}

/// Adds a flag before each assignment of a map, where there is one.
pub fn push_pairs(args: &mut Vec<String>, flag: &str, map: &Option<OrderedMap<String>>)
    ensures
        texts(final(args)@) == texts(old(args)@) + flag_pairs_opt(
            flag@,
            pairs_opt(*map),
        ),
{
    match map {
        Some(m) => push_map(args, flag, m),
        None => {
            assert(texts(args@) =~= texts(old(args)@) + Seq::<Seq<char>>::empty());
        },
    }
}

/// Adds a flag, where a setting is on.
pub fn push_if(args: &mut Vec<String>, flag: &str, on: bool)
    ensures
        texts(final(args)@) == texts(old(args)@) + flag_if(flag@, on),
{
    if on {
        args.push(flag.to_owned());
        assert(texts(args@) =~= texts(old(args)@) + flag_if(flag@, on));
    } else {
        assert(texts(args@) =~= texts(old(args)@) + Seq::<Seq<char>>::empty());
    }
}

/// Adds a flag, where an optional setting is on.
pub fn push_set(args: &mut Vec<String>, flag: &str, on: Option<bool>)
    ensures
        texts(final(args)@) == texts(old(args)@) + flag_if(flag@, on == Some(true)),
{
    let set: bool = match on {
        Some(b) => b,
        None => false,
    };
    push_if(args, flag, set);
}

/// Adds all words of a list.
pub fn push_words(args: &mut Vec<String>, words: &[String])
    ensures
        texts(final(args)@) == texts(old(args)@) + texts(words@),
{
    let ghost before = texts(args@);
    let ghost all = texts(words@);
    let mut i: usize = 0;
    assert(texts(args@) =~= before + all.take(0));
    while i < words.len()
        invariant
            i <= words@.len(),
            all == texts(words@),
            texts(args@) == before + all.take(i as int),
        decreases words@.len() - i,
    {
        args.push(words[i].clone());
        assert(texts(args@) =~= before + all.take(i + 1));
        i += 1;
    }
    assert(all.take(i as int) =~= all);
}

/// Adds all words of a list, where there is one.
pub fn push_words_opt(args: &mut Vec<String>, words: &Option<Vec<String>>)
    ensures
        texts(final(args)@) == texts(old(args)@) + words_of(
            texts_opt(*words),
        ),
{
    match words {
        Some(v) => push_words(args, v.as_slice()),
        None => {
            assert(texts(args@) =~= texts(old(args)@) + Seq::<Seq<char>>::empty());
        },
    }
}

} // verus!
