//! Verified core of a blockchain indexer: per-height block assembly, an
//! in-order release journal, a checkpointed committer over a relational
//! store model, and the bootstrap logic that resumes ingestion after a
//! restart.

use vstd::prelude::*;

pub mod bootstrap;
pub mod committer;
pub mod config;
pub mod datetime;
pub mod errors;
pub mod events;
pub mod fetcher;
pub mod journal;
pub mod models;
pub mod records;
pub mod responses;
pub mod resputil;
pub mod retry;
pub mod sequencer;
pub mod storage;

verus! {

/// What a SHA-256 digest of the given bytes is. The digest is a pure
/// function of the input; its definition is the algorithm itself and is
/// left to the outside implementation.
pub uninterp spec fn sha256_of(data: Seq<u8>) -> Seq<u8>;

/// Relies on sha2::Sha256: the 32-byte digest depends on the input bytes
/// alone.
#[verifier::external_body]
fn sha256_digest(data: &[u8]) -> (r: Vec<u8>)
    ensures
        r@ == sha256_of(data@),
        r@.len() == 32,
{
    <sha2::Sha256 as sha2::Digest>::digest(data).to_vec()
}

/// The uppercase hexadecimal digit for a value below 16.
pub open spec fn hex_digit(v: int) -> char {
    if v == 0 {
        '0'
    } else if v == 1 {
        '1'
    } else if v == 2 {
        '2'
    } else if v == 3 {
        '3'
    } else if v == 4 {
        '4'
    } else if v == 5 {
        '5'
    } else if v == 6 {
        '6'
    } else if v == 7 {
        '7'
    } else if v == 8 {
        '8'
    } else if v == 9 {
        '9'
    } else if v == 10 {
        'A'
    } else if v == 11 {
        'B'
    } else if v == 12 {
        'C'
    } else if v == 13 {
        'D'
    } else if v == 14 {
        'E'
    } else {
        'F'
    }
}

/// Uppercase hexadecimal encoding of a byte sequence: two digits per byte,
/// most significant first.
pub open spec fn hex_upper(data: Seq<u8>) -> Seq<char> {
    Seq::new(data.len() * 2, |i: int|
        if i % 2 == 0 {
            hex_digit(data[i / 2] as int / 16)
        } else {
            hex_digit(data[i / 2] as int % 16)
        }
    )
}

/// The uppercase hexadecimal digit for `v`, as a one-character string.
fn hex_digit_str(v: u8) -> (r: &'static str)
    requires
        v < 16,
    ensures
        r@ == seq![hex_digit(v as int)],
{
    proof {
        reveal_strlit("0");
        reveal_strlit("1");
        reveal_strlit("2");
        reveal_strlit("3");
        reveal_strlit("4");
        reveal_strlit("5");
        reveal_strlit("6");
        reveal_strlit("7");
        reveal_strlit("8");
        reveal_strlit("9");
        reveal_strlit("A");
        reveal_strlit("B");
        reveal_strlit("C");
        reveal_strlit("D");
        reveal_strlit("E");
        reveal_strlit("F");
    }
    let r: &'static str = match v {
        0 => "0",
        1 => "1",
        2 => "2",
        3 => "3",
        4 => "4",
        5 => "5",
        6 => "6",
        7 => "7",
        8 => "8",
        9 => "9",
        10 => "A",
        11 => "B",
        12 => "C",
        13 => "D",
        14 => "E",
        _ => "F",
    };
    proof {
        assert(r@ =~= seq![hex_digit(v as int)]);
    }
    r
}

/// Encodes bytes as uppercase hexadecimal, two digits per byte.
pub fn to_hex_upper(data: &[u8]) -> (r: String)
    requires
        data@.len() * 2 <= usize::MAX,
    ensures
        r@ == hex_upper(data@),
{
    let mut out = String::new();
    let mut i: usize = 0;
    while i < data.len()
        invariant
            i <= data@.len(),
            data@.len() * 2 <= usize::MAX,
            out@ == hex_upper(data@.take(i as int)),
        decreases data@.len() - i,
    {
        let b = data[i];
        out.append(hex_digit_str(b / 16));
        out.append(hex_digit_str(b % 16));
        proof {
            let prev = data@.take(i as int);
            let cur = data@.take(i + 1);
            assert(hex_upper(cur) =~= hex_upper(prev) + seq![
                hex_digit(data@[i as int] as int / 16),
                hex_digit(data@[i as int] as int % 16),
            ]);
        }
        i = i + 1;
    }
    proof {
        assert(data@.take(data@.len() as int) =~= data@);
    }
    out
}

/// The content-addressed transaction identity of raw body bytes: the
/// uppercase hexadecimal form of their SHA-256 digest.
pub open spec fn spec_tx_hash(data: Seq<u8>) -> Seq<char> {
    hex_upper(sha256_of(data))
}

/// Derives a transaction hash from the transaction's raw body bytes, the
/// same content addressing the upstream chain uses for transaction
/// identity.
pub fn bytes_to_tx_hash(data: &[u8]) -> (r: String)
    ensures
        r@ == spec_tx_hash(data@),
        r@.len() == 64,
{
    let digest = sha256_digest(data);
    to_hex_upper(digest.as_slice())
}

/// Derives the transaction hash of every raw transaction body of a block,
/// in block-body order.
pub fn tx_hashes_of(bodies: &Vec<Vec<u8>>) -> (r: Vec<String>)
    ensures
        r@.len() == bodies@.len(),
        forall|i: int| 0 <= i < r@.len() ==> r@[i]@ == spec_tx_hash(bodies@[i]@),
{
    let mut out: Vec<String> = Vec::new();
    let mut i: usize = 0;
    while i < bodies.len()
        invariant
            i <= bodies@.len(),
            out@.len() == i,
            forall|j: int| 0 <= j < i ==> out@[j]@ == spec_tx_hash(bodies@[j]@),
        decreases bodies@.len() - i,
    {
        out.push(bytes_to_tx_hash(bodies[i].as_slice()));
        i = i + 1;
    }
    out
}

/// Relies on chrono::Utc::now: the current wall-clock time as seconds
/// since the Unix epoch. Nothing is assumed of the value.
#[verifier::external_body]
pub fn current_time() -> i64 {
    chrono::Utc::now().timestamp()
}

} // verus!
