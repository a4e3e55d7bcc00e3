//! Tamper-evident hash chain over admin events.
//!
//! Each event's link is the lower-case hex SHA-256 of the previous link (the
//! literal `genesis` before the first event) followed by the event's fields,
//! all separated by `|`: id, actor id, action label, target-kind label,
//! target id, timestamp in decimal, details (empty when absent).
use vstd::prelude::*;
use vstd::utf8::encode_utf8;
use crate::domain::admin_event::AdminEvent;
use crate::infrastructure::labels::{action_name, action_to_str, kind_name, kind_to_str};

verus! {

/// The SHA-256 digest of `data`, as computed by the `sha2` crate.
pub uninterp spec fn sha256_of(data: Seq<u8>) -> Seq<u8>;

/// `sha2::Sha256::digest`: the 32-byte SHA-256 digest of `data`.
#[verifier::external_body]
fn sha256_digest(data: &[u8]) -> (d: Vec<u8>)
    ensures
        d@ == sha256_of(data@),
        d@.len() == 32,
{
    <sha2::Sha256 as sha2::Digest>::digest(data).to_vec()
}

/// One lower-case hexadecimal digit.
pub open spec fn hex_digit(n: int) -> char {
    if n < 10 {
        (48 + n) as char
    } else {
        (87 + n) as char
    }
}

/// Lower-case hexadecimal rendering, two digits per byte, high nibble first.
pub open spec fn lower_hex(bytes: Seq<u8>) -> Seq<char>
    decreases bytes.len(),
{
    if bytes.len() == 0 {
        Seq::empty()
    } else {
        seq![hex_digit(bytes[0] as int / 16), hex_digit(bytes[0] as int % 16)] + lower_hex(bytes.drop_first())
    }
}

/// `hex::encode`: every byte as two lower-case hexadecimal digits, high
/// nibble first.
#[verifier::external_body]
fn hex_encode(data: &[u8]) -> (s: String)
    ensures
        s@ == lower_hex(data@),
{
    hex::encode(data)
}

/// ASCII decimal digits of `n`, most significant first, no leading zeros.
pub open spec fn decimal_digits(n: nat) -> Seq<u8>
    decreases n,
{
    if n < 10 {
        seq![(48 + n) as u8]
    } else {
        decimal_digits(n / 10).push((48 + n % 10) as u8)
    }
}

/// ASCII decimal rendering of an integer, with a leading `-` when negative.
pub open spec fn decimal_text(n: int) -> Seq<u8> {
    if n < 0 {
        seq![45u8] + decimal_digits((-n) as nat)
    } else {
        decimal_digits(n as nat)
    }
}

/// The `|` separator.
pub open spec fn bar() -> Seq<u8> {
    seq![124u8]
}

/// The text of the event's details, empty when there are none.
pub open spec fn details_text(e: AdminEvent) -> Seq<char> {
    match e.details {
        Some(d) => d@,
        None => Seq::empty(),
    }
}

/// The bytes hashed to link `e` after the link `prev`.
#[verifier::opaque]
pub open spec fn link_message(prev: Seq<char>, e: AdminEvent) -> Seq<u8> {
    encode_utf8(prev) + bar() + encode_utf8(e.id@) + bar() + encode_utf8(e.actor_id@) + bar()
        + encode_utf8(action_name(e.action)) + bar() + encode_utf8(kind_name(e.target_kind))
        + bar() + encode_utf8(e.target_id@) + bar() + decimal_text(e.timestamp.0 as int) + bar()
        + encode_utf8(details_text(e))
}

/// The link that follows `prev` for event `e`.
pub open spec fn link_hash(prev: Seq<char>, e: AdminEvent) -> Seq<char> {
    lower_hex(sha256_of(link_message(prev, e)))
}

/// The link that precedes the first event.
pub open spec fn genesis() -> Seq<char> {
    "genesis"@
}

/// The link before the next event appended after `links`.
pub open spec fn last_link(links: Seq<Seq<char>>) -> Seq<char> {
    if links.len() == 0 {
        genesis()
    } else {
        links.last()
    }
}

/// The chain of links of a sequence of events.
pub open spec fn chain_of(events: Seq<AdminEvent>) -> Seq<Seq<char>>
    decreases events.len(),
{
    if events.len() == 0 {
        Seq::empty()
    } else {
        let prior = chain_of(events.drop_last());
        prior.push(link_hash(last_link(prior), events.last()))
    }
}

pub proof fn lemma_chain_len(events: Seq<AdminEvent>)
    ensures
        chain_of(events).len() == events.len(),
    decreases events.len(),
{
    if events.len() > 0 {
        lemma_chain_len(events.drop_last());
    }
}

/// Extending the events by one extends the chain by that event's link.
pub proof fn lemma_chain_push(events: Seq<AdminEvent>, e: AdminEvent)
    ensures
        chain_of(events.push(e)) == chain_of(events).push(link_hash(last_link(chain_of(events)), e)),
{
    assert(events.push(e).drop_last() =~= events);
}

/// A chain's prefix is the chain of the events' prefix.
pub proof fn lemma_chain_prefix(events: Seq<AdminEvent>, n: int)
    requires
        0 <= n <= events.len(),
    ensures
        chain_of(events.take(n)) == chain_of(events).take(n),
    decreases events.len(),
{
    lemma_chain_len(events);
    if n < events.len() {
        assert(events.drop_last().take(n) =~= events.take(n));
        lemma_chain_prefix(events.drop_last(), n);
        lemma_chain_len(events.drop_last());
        assert(chain_of(events).take(n) =~= chain_of(events.drop_last()).take(n));
    } else {
        assert(events.take(n) =~= events);
        assert(chain_of(events).take(n) =~= chain_of(events));
    }
}

/// Link `i` follows the links before it.
pub proof fn lemma_chain_step(events: Seq<AdminEvent>, i: int)
    requires
        0 <= i < events.len(),
    ensures
        chain_of(events).len() == events.len(),
        chain_of(events).take(i + 1) == chain_of(events).take(i).push(chain_of(events)[i]),
        chain_of(events)[i] == link_hash(last_link(chain_of(events).take(i)), events[i]),
{
    lemma_chain_len(events);
    lemma_chain_prefix(events, i + 1);
    lemma_chain_prefix(events, i);
    let pre = events.take(i + 1);
    assert(pre.drop_last() =~= events.take(i));
    assert(pre.last() == events[i]);
    lemma_chain_len(pre);
    assert(chain_of(pre) == chain_of(pre.drop_last()).push(link_hash(last_link(chain_of(pre.drop_last())), pre.last())));
    assert(chain_of(pre)[i] == chain_of(events).take(i + 1)[i]);
    assert(chain_of(events).take(i + 1) =~= chain_of(events).take(i).push(chain_of(events)[i]));
}

/// Appends the UTF-8 bytes of `s` to `out`.
fn push_text(out: &mut Vec<u8>, s: &str)
    ensures
        final(out)@ == old(out)@ + encode_utf8(s@),
{
    let bytes = s.as_bytes();
    let mut i: usize = 0;
    while i < bytes.len()
        invariant
            i <= bytes@.len(),
            bytes@ == encode_utf8(s@),
            out@ == old(out)@ + bytes@.take(i as int),
        decreases bytes@.len() - i,
    {
        out.push(bytes[i]);
        i += 1;
        assert(bytes@.take(i as int) =~= bytes@.take(i - 1).push(bytes@[i - 1]));
    }
    assert(bytes@.take(i as int) =~= bytes@);
}

/// Appends the decimal digits of `m` to `out`.
fn push_digits(out: &mut Vec<u8>, m: u64)
    ensures
        final(out)@ == old(out)@ + decimal_digits(m as nat),
    decreases m,
{
    if m >= 10 {
        push_digits(out, m / 10);
    }
    out.push((48 + m % 10) as u8);
    proof {
        if m >= 10 {
            assert(decimal_digits(m as nat) == decimal_digits((m / 10) as nat).push((48 + m % 10) as u8));
        }
    }
    assert(final(out)@ =~= old(out)@ + decimal_digits(m as nat)) by {
        if m >= 10 {
            assert(decimal_digits(m as nat) == decimal_digits((m / 10) as nat).push((48 + m % 10) as u8));
        }
    }
}

/// Appends the decimal rendering of `n` to `out`.
fn push_decimal(out: &mut Vec<u8>, n: i64)
    ensures
        final(out)@ == old(out)@ + decimal_text(n as int),
{
    if n < 0 {
        out.push(45u8);
        let magnitude: u64 = (0i128 - n as i128) as u64;
        push_digits(out, magnitude);
        assert(out@ =~= old(out)@ + decimal_text(n as int));
    } else {
        push_digits(out, n as u64);
    }
}

/// The link that follows `prev` for `event`.
pub fn compute_hash(prev: &str, event: &AdminEvent) -> (h: String)
    ensures
        h@ == link_hash(prev@, *event),
{
    let mut msg: Vec<u8> = Vec::new();
    push_text(&mut msg, prev);
    msg.push(124u8);
    push_text(&mut msg, event.id.as_str());
    msg.push(124u8);
    push_text(&mut msg, event.actor_id.0.as_str());
    msg.push(124u8);
    push_text(&mut msg, action_to_str(event.action));
    msg.push(124u8);
    push_text(&mut msg, kind_to_str(event.target_kind));
    msg.push(124u8);
    push_text(&mut msg, event.target_id.as_str());
    msg.push(124u8);
    push_decimal(&mut msg, event.timestamp.0);
    msg.push(124u8);
    match &event.details {
        Some(d) => push_text(&mut msg, d.as_str()),
        None => push_text(&mut msg, ""),
    }
    proof {
        reveal_strlit("");
        reveal(link_message);
    }
    assert(msg@ =~= link_message(prev@, *event));
    let digest = sha256_digest(msg.as_slice());
    hex_encode(digest.as_slice())
}

/// Outcome of checking a stored chain: `valid` exactly when no stored link
/// disagrees, `length` entries examined, `broken_at` the first index whose
/// non-empty stored link differs from the recomputed one.
#[derive(Debug, Clone, Copy, PartialEq, Eq)]
pub struct ChainCheck {
    pub valid: bool,
    pub length: usize,
    pub broken_at: Option<usize>,
}

/// The first index at which a non-empty stored link differs from the chain
/// recomputed from the events. An empty stored link (an event loaded without
/// its link) is not checked.
pub open spec fn first_break(events: Seq<AdminEvent>, stored: Seq<Seq<char>>) -> Option<int> {
    let chain = chain_of(events);
    if exists|i: int| 0 <= i < events.len() && #[trigger] stored[i].len() > 0 && stored[i] != chain[i] {
        Some(choose|i: int| 0 <= i < events.len() && #[trigger] stored[i].len() > 0 && stored[i] != chain[i]
            && forall|j: int| 0 <= j < i ==> !(#[trigger] stored[j].len() > 0 && stored[j] != chain[j]))
    } else {
        None
    }
}

/// Recomputes the chain over `entries` (event, stored link) and reports the
/// first stored link that disagrees.
pub fn verify_chain(entries: &[(AdminEvent, String)]) -> (r: ChainCheck)
    ensures
        r.length == entries@.len(),
        r.valid == (r.broken_at is None),
        match first_break(entries@.map_values(|p: (AdminEvent, String)| p.0),
            entries@.map_values(|p: (AdminEvent, String)| p.1@)) {
            Some(i) => r.broken_at == Some(i as usize),
            None => r.broken_at is None,
        },
{
    let ghost events = entries@.map_values(|p: (AdminEvent, String)| p.0);
    let ghost stored = entries@.map_values(|p: (AdminEvent, String)| p.1@);
    let ghost chain = chain_of(events);
    proof {
        lemma_chain_len(events);
        reveal_strlit("genesis");
    }
    let mut prev = String::from_str("genesis");
    let mut i: usize = 0;
    while i < entries.len()
        invariant
            i <= entries@.len(),
            events == entries@.map_values(|p: (AdminEvent, String)| p.0),
            stored == entries@.map_values(|p: (AdminEvent, String)| p.1@),
            chain == chain_of(events),
            chain.len() == events.len(),
            events.len() == entries@.len(),
            prev@ == last_link(chain.take(i as int)),
            forall|j: int| 0 <= j < i ==> !(#[trigger] stored[j].len() > 0 && stored[j] != chain[j]),
        decreases entries@.len() - i,
    {
        let expected = compute_hash(prev.as_str(), &entries[i].0);
        proof {
            lemma_chain_step(events, i as int);
        }
        let stored_link = &entries[i].1;
        if stored_link.as_str().is_empty() {
            prev = expected;
        } else if *stored_link != expected {
            proof {
                assert(stored[i as int].len() > 0 && stored[i as int] != chain[i as int]);
            }
            return ChainCheck { valid: false, length: entries.len(), broken_at: Some(i) };
        } else {
            prev = expected;
        }
        i += 1;
    }
    ChainCheck { valid: true, length: entries.len(), broken_at: None }
}

/// A stored chain that equals the recomputed chain has no break.
pub proof fn lemma_intact_chain_has_no_break(events: Seq<AdminEvent>)
    ensures
        first_break(events, chain_of(events)) is None,
{
}

/// Overwriting one link of an intact chain with a different, non-empty
/// value is reported at exactly that index.
pub proof fn lemma_tampered_link_is_found(events: Seq<AdminEvent>, k: int, bad: Seq<char>)
    requires
        0 <= k < events.len(),
        bad.len() > 0,
        bad != chain_of(events)[k],
    ensures
        first_break(events, chain_of(events).update(k, bad)) == Some(k),
{
    lemma_chain_len(events);
    let stored = chain_of(events).update(k, bad);
    let chain = chain_of(events);
    assert(stored[k].len() > 0 && stored[k] != chain[k]);
    assert forall|j: int| 0 <= j < events.len() && #[trigger] stored[j].len() > 0 && stored[j] != chain[j] implies j == k by {}
}

} // verus!
