//! Where the commit log keeps its data, and which node leads a topic.

use crate::text::{decimal, decimal_string, digit, join};
use vstd::arithmetic::div_mod::{lemma_add_mod_noop, lemma_mul_mod_noop_left};
use vstd::prelude::*;
use vstd::string::*;

verus! {

/// The keys under which the services hold a topic's data.
#[derive(Clone, Copy, Debug)]
pub struct StorageKey {}

impl StorageKey {
    /// Key of the entry that `topic` holds at `offset`.
    pub open spec fn log_key(topic: Seq<char>, offset: nat) -> Seq<char> {
        topic + "/log/"@ + decimal(offset)
    }

    /// Key of the counter that holds the next free offset of `topic`.
    pub open spec fn offset_key(topic: Seq<char>) -> Seq<char> {
        topic + "/offset"@
    }

    /// Key of the offset up to which `topic` has been consumed.
    pub open spec fn commit_key(topic: Seq<char>) -> Seq<char> {
        topic + "/commit"@
    }

    pub fn log(topic: &str, offset: usize) -> (key: String)
        ensures
            key@ == Self::log_key(topic@, offset as nat),
    {
        let mut key = join(topic, "/log/");
        let number = decimal_string(offset);
        key.append(number.as_str());
        key
    }

    pub fn offset(topic: &str) -> (key: String)
        ensures
            key@ == Self::offset_key(topic@),
    {
        join(topic, "/offset")
    }

    pub fn commit(topic: &str) -> (key: String)
        ensures
            key@ == Self::commit_key(topic@),
    {
        join(topic, "/commit")
    }
}

/// What one character adds to a topic's hash: a decimal digit its value, any
/// other character its code.
pub open spec fn symbol(c: char) -> nat {
    if '0' <= c && c <= '9' {
        (c as nat - 48) as nat
    } else {
        c as nat
    }
}

/// The hash of a topic: its characters read as the digits of a number in
/// base ten, first character first. A topic that is written as a decimal
/// number hashes to that number.
pub open spec fn topic_hash(topic: Seq<char>) -> nat
    decreases topic.len(),
{
    if topic.len() == 0 {
        0
    } else {
        topic_hash(topic.drop_last()) * 10 + symbol(topic.last())
    }
}

/// The class of a topic among `classes` classes: its hash modulo their
/// number. Where there are no classes to choose from, it is class zero.
pub open spec fn topic_class(topic: Seq<char>, classes: nat) -> nat {
    if classes > 0 {
        topic_hash(topic) % classes
    } else {
        0
    }
}

/// The name of the node that leads `class`.
pub open spec fn leader_name(class: nat) -> Seq<char> {
    "n"@ + decimal(class)
}

/// A topic that is the decimal notation of `n` hashes to `n`.
pub proof fn lemma_hash_of_decimal(n: nat)
    ensures
        topic_hash(decimal(n)) == n,
    decreases n,
{
    let text = decimal(n);
    if n < 10 {
        assert(text.drop_last() =~= Seq::<char>::empty());
        assert(text.last() == digit(n));
        assert(topic_hash(text.drop_last()) == 0);
    } else {
        lemma_hash_of_decimal(n / 10);
        assert(text.drop_last() =~= decimal(n / 10));
        assert(text.last() == digit(n % 10));
    }
}

fn symbol_of(c: char) -> (value: u32)
    ensures
        value == symbol(c),
{
    if '0' <= c && c <= '9' {
        c as u32 - 48
    } else {
        c as u32
    }
}

/// Computes the class of `topic` among `classes` classes.
pub fn class_of(topic: &str, classes: usize) -> (class: usize)
    ensures
        class == topic_class(topic@, classes as nat),
{
    if classes == 0 {
        return 0;
    }
    let mut class: usize = 0;
    proof {
        assert(topic@.take(0) =~= Seq::<char>::empty());
    }
    for c in it: topic.chars()
        invariant
            classes > 0,
            it.seq() == topic@,
            class < classes,
            class == topic_hash(it.seq().take(it.index())) % (classes as nat),
    {
        let value = symbol_of(c);
        let wide: u128 = (class as u128) * 10 + (value as u128);
        let next: u128 = wide % (classes as u128);
        proof {
            let done = it.seq().take(it.index());
            let more = it.seq().take(it.index() + 1);
            assert(more.drop_last() =~= done);
            assert(more.last() == c);
            let h = topic_hash(done) as int;
            let m = classes as int;
            lemma_mul_mod_noop_left(h, 10, m);
            lemma_add_mod_noop(h * 10, value as int, m);
            lemma_add_mod_noop((h % m) * 10, value as int, m);
        }
        class = next as usize;
    }
    proof {
        assert(topic@.take(topic@.len() as int) =~= topic@);
    }
    class
}

/// The name of the node that leads `class`.
pub fn leader_of(class: usize) -> (name: String)
    ensures
        name@ == leader_name(class as nat),
{
    let number = decimal_string(class);
    join("n", number.as_str())
}

} // verus!
