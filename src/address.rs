//! Content addressing: the digest of a file, its lowercase hex form and the
//! id of the input-file row that it yields.
use vstd::prelude::*;
use vstd::string::StringExecFns;

verus! {

/// The BLAKE3 digest of `input` (32 bytes).
pub uninterp spec fn blake3_of(input: Seq<u8>) -> Seq<u8>;

/// Relies on `blake3::hash`: the 32-byte BLAKE3 digest of the input, which
/// depends on the input alone.
#[verifier::external_body]
fn blake3_hash(input: &[u8]) -> (r: Vec<u8>)
    ensures
        r@ == blake3_of(input@),
        r@.len() == 32,
{
    blake3::hash(input).as_bytes().to_vec()
}

/// The bytes that address a file: its logical path, `/`, its contents.
pub open spec fn address_message(logical_path: Seq<u8>, contents: Seq<u8>) -> Seq<u8> {
    logical_path + seq![0x2fu8] + contents
}

fn push_all(v: &mut Vec<u8>, s: &[u8])
    ensures
        final(v)@ == old(v)@ + s@,
{
    let mut i: usize = 0;
    while i < s.len()
        invariant
            i <= s@.len(),
            v@ == old(v)@ + s@.subrange(0, i as int),
        decreases s@.len() - i,
    {
        v.push(s[i]);
        i = i + 1;
        assert(s@.subrange(0, i as int) =~= s@.subrange(0, i - 1) + seq![s@[i - 1]]);
    }
    assert(s@.subrange(0, i as int) =~= s@);
}

/// The content hash of a file: BLAKE3 over its logical path, `/` and its bytes.
pub fn content_hash(logical_path: &[u8], contents: &[u8]) -> (r: Vec<u8>)
    ensures
        r@ == blake3_of(address_message(logical_path@, contents@)),
        r@.len() == 32,
{
    let mut message: Vec<u8> = Vec::new();
    push_all(&mut message, logical_path);
    message.push(0x2f);
    push_all(&mut message, contents);
    assert(message@ =~= address_message(logical_path@, contents@));
    blake3_hash(message.as_slice())
}

/// The lowercase hex digit for `d` (< 16).
pub open spec fn hex_char(d: int) -> char {
    if d < 10 {
        (48 + d) as char
    } else {
        (87 + d) as char
    }
}

/// Lowercase hex of `b`, two digits per byte.
pub open spec fn hex_of(b: Seq<u8>) -> Seq<char>
    decreases b.len(),
{
    if b.len() == 0 {
        seq![]
    } else {
        hex_of(b.drop_last()) + seq![hex_char(b.last() as int / 16), hex_char(b.last() as int % 16)]
    }
}

/// The id of the input-file row for a file: the hex of its content hash, a
/// comma, and its logical path.
pub open spec fn input_file_id_of(hash: Seq<u8>, logical_path: Seq<char>) -> Seq<char> {
    hex_of(hash) + seq![','] + logical_path
}

pub proof fn lemma_hex_len(b: Seq<u8>)
    ensures
        hex_of(b).len() == 2 * b.len(),
    decreases b.len(),
{
    if b.len() > 0 {
        lemma_hex_len(b.drop_last());
    }
}

fn hex_digit(d: u8) -> (r: &'static str)
    requires
        d < 16,
    ensures
        r@ == seq![hex_char(d as int)],
{
    let r = match d {
        0 => "0",
        1 => "1",
        2 => "2",
        3 => "3",
        4 => "4",
        5 => "5",
        6 => "6",
        7 => "7",
        8 => "8",
        9 => "9",
        10 => "a",
        11 => "b",
        12 => "c",
        13 => "d",
        14 => "e",
        _ => "f",
    };
    proof {
        reveal_strlit("0");
        reveal_strlit("1");
        reveal_strlit("2");
        reveal_strlit("3");
        reveal_strlit("4");
        reveal_strlit("5");
        reveal_strlit("6");
        reveal_strlit("7");
        reveal_strlit("8");
        reveal_strlit("9");
        reveal_strlit("a");
        reveal_strlit("b");
        reveal_strlit("c");
        reveal_strlit("d");
        reveal_strlit("e");
        reveal_strlit("f");
    }
    assert(r@ =~= seq![hex_char(d as int)]);
    r
}

/// Lowercase hex of `b`, two digits per byte: the name of a content-store file.
pub fn hex_string(b: &[u8]) -> (r: String)
    ensures
        r@ == hex_of(b@),
{
    let mut r = String::new();
    let mut i: usize = 0;
    while i < b.len()
        invariant
            i <= b@.len(),
            r@ == hex_of(b@.subrange(0, i as int)),
        decreases b@.len() - i,
    {
        let byte = b[i];
        r.append(hex_digit(byte / 16));
        r.append(hex_digit(byte % 16));
        i = i + 1;
        assert(b@.subrange(0, i as int).drop_last() =~= b@.subrange(0, i - 1));
    }
    assert(b@.subrange(0, i as int) =~= b@);
    r
}

/// The id of the input-file row for a file with content hash `hash` at
/// `logical_path`.
pub fn input_file_id(hash: &[u8], logical_path: &str) -> (r: String)
    ensures
        r@ == input_file_id_of(hash@, logical_path@),
{
    let id = hex_string(hash);
    let comma = ",";
    proof {
        reveal_strlit(",");
    }
    let id = id.concat(comma);
    let id = id.concat(logical_path);
    assert(id@ =~= input_file_id_of(hash@, logical_path@));
    id
}

/// Two files get the same id exactly when their hashes and logical paths
/// agree; in particular the id is a function of the hash and the path, so
/// addressing a file twice gives the same row.
pub proof fn lemma_id_determines_address(h1: Seq<u8>, p1: Seq<char>, h2: Seq<u8>, p2: Seq<char>)
    requires
        h1.len() == h2.len(),
    ensures
        input_file_id_of(h1, p1) == input_file_id_of(h2, p2) <==> (hex_of(h1) == hex_of(h2)
            && p1 == p2),
{
    lemma_hex_len(h1);
    lemma_hex_len(h2);
    let a = input_file_id_of(h1, p1);
    let b = input_file_id_of(h2, p2);
    let n = hex_of(h1).len() + 1int;
    if a == b {
        assert(a.subrange(0, n - 1) =~= hex_of(h1));
        assert(b.subrange(0, n - 1) =~= hex_of(h2));
        assert(a.subrange(n, a.len() as int) =~= p1);
        assert(b.subrange(n, b.len() as int) =~= p2);
    }
}

} // verus!
