//! Integrity checking of downloaded archives against checksum manifests.
//!
//! A manifest is the text published next to a release archive: one line
//! per file of the form `<hex digest> <file name>`, or a single bare
//! digest.  The checker finds the line for the downloaded file, discards
//! the trailing file-name column, and compares the digest of the file's
//! bytes against it, ignoring case of the hex letters and surrounding
//! whitespace.

use vstd::prelude::*;

use crate::text::{
    contains_seq, contains_str, is_ws, last_index_of, lines_acc, lines_of, lines_vec, push_char,
    rfind_char, strip_cr, substring, to_owned_str, trim_seq, trim_str,
};

verus! {

use vstd::string::*;

/// Which digest family a manifest's hashes belong to.
#[derive(Debug, Clone, Copy, PartialEq, Eq, Structural)]
pub enum HashSumType {
    Sha512,
    Sha256,
}

/// A checksum manifest: its raw text together with the digest family it
/// holds.  While a download is being resolved, `sum_content` holds the
/// manifest's URL instead; the fetcher replaces it with the fetched text
/// before verification.
#[derive(Debug, Clone, PartialEq)]
pub struct HashSums {
    pub sum_content: String,
    pub sum_type: HashSumType,
}

/// The SHA-512 digest of `data`.  Computed only by the `sha2` crate;
/// the crate states nothing of its value beyond its length.
pub uninterp spec fn sha512_of(data: Seq<u8>) -> Seq<u8>;

/// The SHA-256 digest of `data`, likewise computed only by `sha2`.
pub uninterp spec fn sha256_of(data: Seq<u8>) -> Seq<u8>;

/// Relies on `sha2::Sha512` through `Digest::digest`: the digest is 64
/// bytes and depends on the input bytes alone.
#[verifier::external_body]
fn sha512_digest(data: &[u8]) -> (r: Vec<u8>)
    ensures
        r@ == sha512_of(data@),
        r@.len() == 64,
{
    <sha2::Sha512 as sha2::Digest>::digest(data).to_vec()
}

/// Relies on `sha2::Sha256` through `Digest::digest`: the digest is 32
/// bytes and depends on the input bytes alone.
#[verifier::external_body]
fn sha256_digest(data: &[u8]) -> (r: Vec<u8>)
    ensures
        r@ == sha256_of(data@),
        r@.len() == 32,
{
    <sha2::Sha256 as sha2::Digest>::digest(data).to_vec()
}

#[verifier::external_type_specification]
#[verifier::external_body]
pub struct ExSha512(sha2::Sha512);

#[verifier::external_type_specification]
#[verifier::external_body]
pub struct ExSha256(sha2::Sha256);

/// The bytes a running SHA-512 hasher has absorbed so far.  The hasher
/// is opaque; this name is what its wrappers state their effect over.
pub uninterp spec fn sha512_fed(h: sha2::Sha512) -> Seq<u8>;

/// The bytes a running SHA-256 hasher has absorbed so far.
pub uninterp spec fn sha256_fed(h: sha2::Sha256) -> Seq<u8>;

/// Relies on `Digest::new` for `sha2::Sha512`: a fresh hasher has
/// absorbed nothing.
#[verifier::external_body]
fn sha512_new() -> (r: sha2::Sha512)
    ensures
        sha512_fed(r) == Seq::<u8>::empty(),
{
    <sha2::Sha512 as sha2::Digest>::new()
}

/// Relies on `Digest::update` for `sha2::Sha512`: absorbs the chunk
/// after everything absorbed before.
#[verifier::external_body]
fn sha512_absorb(h: &mut sha2::Sha512, chunk: &[u8])
    ensures
        sha512_fed(*final(h)) == sha512_fed(*old(h)) + chunk@,
{
    sha2::Digest::update(h, chunk);
}

/// Relies on `Digest::finalize` for `sha2::Sha512`: the 64-byte digest
/// of everything absorbed.
#[verifier::external_body]
fn sha512_finish(h: sha2::Sha512) -> (r: Vec<u8>)
    ensures
        r@ == sha512_of(sha512_fed(h)),
        r@.len() == 64,
{
    sha2::Digest::finalize(h).to_vec()
}

/// Relies on `Digest::new` for `sha2::Sha256`: a fresh hasher has
/// absorbed nothing.
#[verifier::external_body]
fn sha256_new() -> (r: sha2::Sha256)
    ensures
        sha256_fed(r) == Seq::<u8>::empty(),
{
    <sha2::Sha256 as sha2::Digest>::new()
}

/// Relies on `Digest::update` for `sha2::Sha256`: absorbs the chunk
/// after everything absorbed before.
#[verifier::external_body]
fn sha256_absorb(h: &mut sha2::Sha256, chunk: &[u8])
    ensures
        sha256_fed(*final(h)) == sha256_fed(*old(h)) + chunk@,
{
    sha2::Digest::update(h, chunk);
}

/// Relies on `Digest::finalize` for `sha2::Sha256`: the 32-byte digest
/// of everything absorbed.
#[verifier::external_body]
fn sha256_finish(h: sha2::Sha256) -> (r: Vec<u8>)
    ensures
        r@ == sha256_of(sha256_fed(h)),
        r@.len() == 32,
{
    sha2::Digest::finalize(h).to_vec()
}

/// A digest built up chunk by chunk, so that checking a file needs no
/// more memory than one read buffer, whatever the file's size.
pub enum StreamingDigest {
    Sha512(sha2::Sha512),
    Sha256(sha2::Sha256),
}

impl StreamingDigest {
    /// The digest family this digest computes.
    pub open spec fn kind(self) -> HashSumType {
        match self {
            StreamingDigest::Sha512(_) => HashSumType::Sha512,
            StreamingDigest::Sha256(_) => HashSumType::Sha256,
        }
    }

    /// The bytes fed so far.
    pub open spec fn fed(self) -> Seq<u8> {
        match self {
            StreamingDigest::Sha512(h) => sha512_fed(h),
            StreamingDigest::Sha256(h) => sha256_fed(h),
        }
    }

    /// A fresh digest of the family `t`, with nothing fed yet.
    pub fn new(t: HashSumType) -> (r: StreamingDigest)
        ensures
            r.kind() == t,
            r.fed() == Seq::<u8>::empty(),
    {
        match t {
            HashSumType::Sha512 => StreamingDigest::Sha512(sha512_new()),
            HashSumType::Sha256 => StreamingDigest::Sha256(sha256_new()),
        }
    }

    /// Feeds one chunk of the file.
    pub fn update(self, chunk: &[u8]) -> (r: StreamingDigest)
        ensures
            r.kind() == self.kind(),
            r.fed() == self.fed() + chunk@,
    {
        match self {
            StreamingDigest::Sha512(mut h) => {
                sha512_absorb(&mut h, chunk);
                StreamingDigest::Sha512(h)
            },
            StreamingDigest::Sha256(mut h) => {
                sha256_absorb(&mut h, chunk);
                StreamingDigest::Sha256(h)
            },
        }
    }

    /// The digest of everything fed.
    pub fn finalize(self) -> (r: Vec<u8>)
        ensures
            r@ == digest_of(self.kind(), self.fed()),
    {
        match self {
            StreamingDigest::Sha512(h) => sha512_finish(h),
            StreamingDigest::Sha256(h) => sha256_finish(h),
        }
    }
}

/// The digest of `data` under the algorithm `t`.
pub open spec fn digest_of(t: HashSumType, data: Seq<u8>) -> Seq<u8> {
    match t {
        HashSumType::Sha512 => sha512_of(data),
        HashSumType::Sha256 => sha256_of(data),
    }
}

/// The lower-case hex digit for a value below sixteen.
pub open spec fn hex_digit(n: int) -> char {
    if n == 0 { '0' } else if n == 1 { '1' } else if n == 2 { '2' } else if n == 3 { '3' }
    else if n == 4 { '4' } else if n == 5 { '5' } else if n == 6 { '6' } else if n == 7 { '7' }
    else if n == 8 { '8' } else if n == 9 { '9' } else if n == 10 { 'a' } else if n == 11 { 'b' }
    else if n == 12 { 'c' } else if n == 13 { 'd' } else if n == 14 { 'e' } else { 'f' }
}

/// The lower-case hex encoding of `bytes`: two digits per byte, high
/// nibble first.
pub open spec fn hex_of(bytes: Seq<u8>) -> Seq<char>
    decreases bytes.len(),
{
    if bytes.len() == 0 {
        Seq::empty()
    } else {
        seq![hex_digit(bytes[0] as int / 16), hex_digit(bytes[0] as int % 16)] + hex_of(
            bytes.skip(1),
        )
    }
}

/// The lower-case hex digit for a nibble, per [`hex_digit`].
fn hex_digit_char(n: u8) -> (c: char)
    requires
        n < 16,
    ensures
        c == hex_digit(n as int),
{
    match n {
        0 => '0',
        1 => '1',
        2 => '2',
        3 => '3',
        4 => '4',
        5 => '5',
        6 => '6',
        7 => '7',
        8 => '8',
        9 => '9',
        10 => 'a',
        11 => 'b',
        12 => 'c',
        13 => 'd',
        14 => 'e',
        _ => 'f',
    }
}

/// Encodes `bytes` as lower-case hex, two digits per byte, high nibble
/// first.
fn hex_encode(bytes: &Vec<u8>) -> (r: String)
    ensures
        r@ == hex_of(bytes@),
{
    let mut r = String::new();
    let mut i: usize = 0;
    proof {
        assert(bytes@.skip(0) =~= bytes@);
        assert(r@ + hex_of(bytes@) =~= hex_of(bytes@));
    }
    while i < bytes.len()
        invariant
            0 <= i <= bytes@.len(),
            r@ + hex_of(bytes@.skip(i as int)) == hex_of(bytes@),
        decreases bytes@.len() - i,
    {
        let ghost before = r@;
        let b = bytes[i];
        proof {
            assert(bytes@.skip(i as int)[0] == bytes@[i as int]);
            assert(bytes@.skip(i as int).skip(1) =~= bytes@.skip(i + 1));
        }
        push_char(&mut r, hex_digit_char(b / 16));
        push_char(&mut r, hex_digit_char(b % 16));
        proof {
            assert(r@ =~= before + seq![
                hex_digit(b as int / 16),
                hex_digit(b as int % 16),
            ]);
            assert(r@ + hex_of(bytes@.skip(i + 1)) =~= before + hex_of(bytes@.skip(i as int)));
        }
        i = i + 1;
    }
    proof {
        assert(bytes@.skip(bytes@.len() as int).len() == 0);
        assert(r@ =~= hex_of(bytes@));
    }
    r
}

/// `c` with an upper-case hex letter folded to lower case.
pub open spec fn lower_hex_char(c: char) -> char {
    match c {
        'A' => 'a',
        'B' => 'b',
        'C' => 'c',
        'D' => 'd',
        'E' => 'e',
        'F' => 'f',
        _ => c,
    }
}

/// `s` with upper-case hex letters folded to lower case.
pub open spec fn lower_hex_seq(s: Seq<char>) -> Seq<char> {
    Seq::new(s.len(), |i: int| lower_hex_char(s[i]))
}

/// Folds upper-case hex letters in `s` to lower case.
fn lower_hex(s: &str) -> (r: String)
    ensures
        r@ == lower_hex_seq(s@),
{
    let n: usize = s.unicode_len();
    let mut r = String::new();
    let mut i: usize = 0;
    proof {
        assert(r@ =~= lower_hex_seq(s@).take(0));
    }
    while i < n
        invariant
            n == s@.len(),
            0 <= i <= n,
            r@ == lower_hex_seq(s@).take(i as int),
        decreases n - i,
    {
        let c = s.get_char(i);
        let l = match c {
            'A' => 'a',
            'B' => 'b',
            'C' => 'c',
            'D' => 'd',
            'E' => 'e',
            'F' => 'f',
            other => other,
        };
        push_char(&mut r, l);
        proof {
            assert(r@ =~= lower_hex_seq(s@).take(i + 1));
        }
        i = i + 1;
    }
    proof {
        assert(lower_hex_seq(s@).take(n as int) =~= lower_hex_seq(s@));
    }
    r
}

/// The first of the lines `ls` that contains `needle`, if any.
pub open spec fn first_line_with(ls: Seq<Seq<char>>, needle: Seq<char>) -> Option<Seq<char>>
    decreases ls.len(),
{
    if ls.len() == 0 {
        None
    } else if contains_seq(ls[0], needle) {
        Some(ls[0])
    } else {
        first_line_with(ls.skip(1), needle)
    }
}

/// The expected hash that a manifest with text `content` states for
/// `file_name`: the line containing the file name — or, failing that, the
/// whole text — up to its last space; the whole text where that line
/// holds no space at all.
pub open spec fn expected_hash_of(file_name: Seq<char>, content: Seq<char>) -> Seq<char> {
    let line = match first_line_with(lines_of(content), file_name) {
        Some(l) => l,
        None => content,
    };
    if last_index_of(line, ' ') >= 0 {
        line.take(last_index_of(line, ' '))
    } else {
        content
    }
}

/// Extracts from the manifest text `content` the hash it states for
/// `file_name`, as [`expected_hash_of`] describes.
pub fn expected_hash(file_name: &str, content: &str) -> (r: String)
    ensures
        r@ == expected_hash_of(file_name@, content@),
{
    let lines = lines_vec(content);
    let ghost ls = lines@.map_values(|l: String| l@);
    let mut i: usize = 0;
    let mut line: Option<String> = None;
    proof {
        assert(ls.skip(0) =~= ls);
    }
    while i < lines.len()
        invariant
            ls == lines@.map_values(|l: String| l@),
            0 <= i <= lines@.len(),
            match line {
                None => first_line_with(ls.skip(i as int), file_name@) == first_line_with(
                    ls,
                    file_name@,
                ),
                Some(l) => first_line_with(ls, file_name@) == Some(l@),
            },
        decreases lines@.len() - i,
    {
        if line.is_none() {
            proof {
                assert(ls.skip(i as int)[0] == ls[i as int]);
                assert(ls.skip(i as int).skip(1) =~= ls.skip(i + 1));
            }
            if contains_str(lines[i].as_str(), file_name) {
                line = Some(lines[i].clone());
            }
        }
        i = i + 1;
    }
    proof {
        if line is None {
            assert(ls.skip(lines@.len() as int) =~= Seq::<Seq<char>>::empty());
        }
    }
    let chosen: &str = match &line {
        Some(l) => l.as_str(),
        None => content,
    };
    match rfind_char(chosen, ' ') {
        Some(sp) => {
            proof {
                crate::text::lemma_last_index_of(chosen@, ' ');
                assert(chosen@.take(sp as int) =~= chosen@.subrange(0, sp as int));
            }
            substring(chosen, 0, sp)
        },
        None => to_owned_str(content),
    }
}

/// Whether the digest of `data` under `t` matches what the manifest text
/// `content` states for `file_name`: the hex encoding of the digest,
/// compared to the stated hash with surrounding whitespace dropped and
/// upper-case hex letters folded.
pub open spec fn hash_check_of(
    file_name: Seq<char>,
    content: Seq<char>,
    data: Seq<u8>,
    t: HashSumType,
) -> bool {
    hex_of(digest_of(t, data)) == lower_hex_seq(trim_seq(expected_hash_of(file_name, content)))
}

/// A character the hex encoding can produce: a digit or a lower-case
/// letter up to `f`.
pub open spec fn is_lower_hex_char(c: char) -> bool {
    ('0' <= c && c <= '9') || ('a' <= c && c <= 'f')
}

/// Every character of a hex encoding is a lower-case hex digit, and
/// there are two per byte.
proof fn lemma_hex_of_chars(bytes: Seq<u8>)
    ensures
        hex_of(bytes).len() == 2 * bytes.len(),
        forall|i: int| 0 <= i < hex_of(bytes).len() ==> is_lower_hex_char(#[trigger] hex_of(bytes)[i]),
    decreases bytes.len(),
{
    if bytes.len() > 0 {
        lemma_hex_of_chars(bytes.skip(1));
        assert(is_lower_hex_char(hex_digit(bytes[0] as int / 16)));
        assert(is_lower_hex_char(hex_digit(bytes[0] as int % 16)));
    }
}

/// Text without a line feed is one single line (or no line at all when
/// it is empty).
proof fn lemma_lines_acc_no_newline(s: Seq<char>, cur: Seq<char>)
    requires
        forall|i: int| 0 <= i < s.len() ==> s[i] != '\n',
    ensures
        lines_acc(s, cur) == (if cur.len() + s.len() == 0 {
            Seq::<Seq<char>>::empty()
        } else {
            seq![cur + s]
        }),
    decreases s.len(),
{
    if s.len() == 0 {
        if cur.len() > 0 {
            assert(cur + s =~= cur);
            assert(lines_acc(s, cur) =~= seq![cur]);
        }
    } else {
        assert(s[0] != '\n');
        lemma_lines_acc_no_newline(s.skip(1), cur.push(s[0]));
        assert(cur.push(s[0]) + s.skip(1) =~= cur + s);
    }
}

/// Untrimmed text stays as it is: trimming touches only whitespace at
/// the two ends.
proof fn lemma_trim_id(s: Seq<char>)
    requires
        s.len() == 0 || (!is_ws(s[0]) && !is_ws(s[s.len() - 1])),
    ensures
        trim_seq(s) == s,
{
}

/// Folding touches only upper-case hex letters: text made of
/// lower-case hex digits stays as it is.
proof fn lemma_lower_hex_id(s: Seq<char>)
    requires
        forall|i: int| 0 <= i < s.len() ==> is_lower_hex_char(#[trigger] s[i]),
    ensures
        lower_hex_seq(s) == s,
{
    assert(lower_hex_seq(s) =~= s);
}

/// The last occurrence of `c` in `a + [c] + b` is the marked one,
/// provided `b` holds no `c`.
proof fn lemma_last_index_concat(a: Seq<char>, b: Seq<char>, c: char)
    requires
        forall|i: int| 0 <= i < b.len() ==> b[i] != c,
    ensures
        last_index_of(a + seq![c] + b, c) == a.len(),
    decreases b.len(),
{
    let s = a + seq![c] + b;
    if b.len() == 0 {
        assert(s[s.len() - 1] == c);
    } else {
        assert(s[s.len() - 1] == b[b.len() - 1]);
        assert(s.take(s.len() - 1) =~= a + seq![c] + b.take(b.len() - 1));
        lemma_last_index_concat(a, b.take(b.len() - 1), c);
    }
}

/// A sequence without `c` has no last occurrence of it.
proof fn lemma_no_char_no_index(s: Seq<char>, c: char)
    requires
        forall|i: int| 0 <= i < s.len() ==> s[i] != c,
    ensures
        last_index_of(s, c) == -1,
{
    crate::text::lemma_last_index_of(s, c);
    if last_index_of(s, c) != -1 {
        assert(s[last_index_of(s, c)] == c);
    }
}

/// Hash verification is exact on the happy path: a manifest that
/// states the hex encoding of the file's digest, a space, and the
/// file's name verifies the file; and with anything else in the hash
/// column — anything that is not that encoding once case is folded —
/// verification fails.  The file name must carry no space and no line
/// feed, as a name in a manifest's file column cannot.
pub proof fn lemma_hash_verification(
    file_name: Seq<char>,
    data: Seq<u8>,
    t: HashSumType,
    stated: Seq<char>,
)
    requires
        forall|i: int|
            0 <= i < file_name.len() ==> file_name[i] != ' ' && file_name[i] != '\n'
                && file_name[i] != '\r',
        forall|i: int| 0 <= i < stated.len() ==> !is_ws(#[trigger] stated[i]),
    ensures
        hash_check_of(file_name, hex_of(digest_of(t, data)) + seq![' '] + file_name, data, t),
        lower_hex_seq(stated) != hex_of(digest_of(t, data)) ==> !hash_check_of(
            file_name,
            stated + seq![' '] + file_name,
            data,
            t,
        ),
{
    let digest = hex_of(digest_of(t, data));
    lemma_hex_of_chars(digest_of(t, data));
    assert(forall|i: int| 0 <= i < digest.len() ==> !is_ws(#[trigger] digest[i]));
    lemma_manifest_column(file_name, digest);
    lemma_trim_id(digest);
    lemma_lower_hex_id(digest);
    lemma_manifest_column(file_name, stated);
    lemma_trim_id(stated);
}

/// The hash column of a single-line manifest `stated + " " + name` is
/// exactly `stated`, provided nothing in it is whitespace and the name
/// holds no space or line break.
proof fn lemma_manifest_column(file_name: Seq<char>, stated: Seq<char>)
    requires
        forall|i: int|
            0 <= i < file_name.len() ==> file_name[i] != ' ' && file_name[i] != '\n'
                && file_name[i] != '\r',
        forall|i: int| 0 <= i < stated.len() ==> !is_ws(#[trigger] stated[i]),
    ensures
        expected_hash_of(file_name, stated + seq![' '] + file_name) == stated,
{
    let content = stated + seq![' '] + file_name;
    assert(forall|i: int| 0 <= i < content.len() ==> #[trigger] content[i] != '\n');
    lemma_lines_acc_no_newline(content, Seq::empty());
    assert(Seq::<char>::empty() + content =~= content);
    assert(lines_of(content) == seq![content]);
    assert(contains_seq(content, file_name)) by {
        assert(content.subrange(
            stated.len() as int + 1,
            content.len() as int,
        ) =~= file_name);
        assert(crate::text::match_at(content, file_name, stated.len() as int + 1));
    }
    assert(first_line_with(lines_of(content), file_name) == Some(content)) by {
        assert(lines_of(content)[0] == content);
    }
    lemma_last_index_concat(stated, file_name, ' ');
    assert(content.take(stated.len() as int) =~= stated);
}

/// Lower-case hex followed by whitespace trims to the hex part alone.
proof fn lemma_trim_hex_ws(a: Seq<char>, b: Seq<char>)
    requires
        forall|i: int| 0 <= i < a.len() ==> is_lower_hex_char(#[trigger] a[i]),
        forall|i: int| 0 <= i < b.len() ==> is_ws(#[trigger] b[i]),
    ensures
        trim_seq(a + b) == a,
{
    let s = a + b;
    if a.len() == 0 {
        assert(s =~= b);
        crate::text::lemma_trim_start_skip(b, b.len() as int);
        assert(b.skip(b.len() as int).len() == 0);
        assert(trim_seq(s) =~= a);
    } else {
        assert(!is_ws(s[0]));
        crate::text::lemma_trim_start_skip(s, 0);
        assert(s.skip(0) =~= s);
        crate::text::lemma_trim_end_take(s, a.len() as int);
        assert(s.take(a.len() as int) =~= a);
    }
}

/// Every character of `s` is whitespace.
spec fn all_ws(s: Seq<char>) -> bool {
    forall|i: int| 0 <= i < s.len() ==> is_ws(#[trigger] s[i])
}

/// Every character of `s` is whitespace short of a line feed.
spec fn all_ws_no_nl(s: Seq<char>) -> bool {
    forall|i: int| 0 <= i < s.len() ==> is_ws(#[trigger] s[i]) && s[i] != '\n'
}

/// Reading text without a line feed only lengthens the line being
/// built.
proof fn lemma_lines_acc_append(x: Seq<char>, t: Seq<char>, cur: Seq<char>)
    requires
        forall|i: int| 0 <= i < x.len() ==> #[trigger] x[i] != '\n',
    ensures
        lines_acc(x + t, cur) == lines_acc(t, cur + x),
    decreases x.len(),
{
    if x.len() == 0 {
        assert(x + t =~= t);
        assert(cur + x =~= cur);
    } else {
        assert((x + t)[0] == x[0]);
        assert((x + t).skip(1) =~= x.skip(1) + t);
        lemma_lines_acc_append(x.skip(1), t, cur.push(x[0]));
        assert(cur.push(x[0]) + x.skip(1) =~= cur + x);
    }
}

/// Whitespace text splits into whitespace lines only.
proof fn lemma_lines_acc_all_ws(s: Seq<char>, cur: Seq<char>)
    requires
        all_ws(s),
        all_ws(cur),
    ensures
        forall|k: int| 0 <= k < lines_acc(s, cur).len() ==> all_ws(#[trigger] lines_acc(s, cur)[k]),
    decreases s.len(),
{
    let ls = lines_acc(s, cur);
    if s.len() == 0 {
        assert forall|k: int| 0 <= k < ls.len() implies all_ws(#[trigger] ls[k]) by {
            assert(ls[k] == cur);
        }
    } else if s[0] == '\n' {
        assert(all_ws(s.skip(1))) by {
            assert(forall|i: int| 0 <= i < s.skip(1).len() ==> #[trigger] s.skip(1)[i] == s[i + 1]);
        }
        lemma_lines_acc_all_ws(s.skip(1), Seq::empty());
        let rest = lines_acc(s.skip(1), Seq::empty());
        assert(all_ws(strip_cr(cur)));
        assert forall|k: int| 0 <= k < ls.len() implies all_ws(#[trigger] ls[k]) by {
            if k >= 1 {
                assert(ls[k] == rest[k - 1]);
            }
        }
    } else {
        assert(all_ws(s.skip(1))) by {
            assert(forall|i: int| 0 <= i < s.skip(1).len() ==> #[trigger] s.skip(1)[i] == s[i + 1]);
        }
        assert(all_ws(cur.push(s[0])));
        lemma_lines_acc_all_ws(s.skip(1), cur.push(s[0]));
        let rest = lines_acc(s.skip(1), cur.push(s[0]));
        assert forall|k: int| 0 <= k < ls.len() implies all_ws(#[trigger] ls[k]) by {
            assert(ls[k] == rest[k]);
        }
    }
}

/// The lines of non-whitespace text followed by whitespace: the first
/// line is the text plus some whitespace free of line feeds, and every
/// further line is whitespace alone.  `w` is the whitespace already
/// read onto the first line.
proof fn lemma_lines_ws_tail(x: Seq<char>, w: Seq<char>, tail: Seq<char>)
    requires
        forall|i: int| 0 <= i < x.len() ==> !is_ws(#[trigger] x[i]),
        all_ws_no_nl(w),
        all_ws(tail),
    ensures
        x.len() + w.len() + tail.len() == 0 ==> lines_acc(tail, x + w) == Seq::<Seq<char>>::empty(),
        x.len() + w.len() + tail.len() > 0 ==> ({
            let ls = lines_acc(tail, x + w);
            &&& ls.len() >= 1
            &&& exists|u: Seq<char>| ls[0] == x + u && all_ws_no_nl(u)
            &&& forall|k: int| 1 <= k < ls.len() ==> all_ws(#[trigger] ls[k])
        }),
    decreases tail.len(),
{
    let ls = lines_acc(tail, x + w);
    if tail.len() == 0 {
        if x.len() + w.len() > 0 {
            assert((x + w).len() > 0);
            assert(ls =~= seq![x + w]);
            assert(ls[0] == x + w && all_ws_no_nl(w));
        } else {
            assert(x + w =~= Seq::<char>::empty());
        }
    } else if tail[0] == '\n' {
        assert(all_ws(tail.skip(1))) by {
            assert(forall|i: int|
                0 <= i < tail.skip(1).len() ==> #[trigger] tail.skip(1)[i] == tail[i + 1]);
        }
        lemma_lines_acc_all_ws(tail.skip(1), Seq::empty());
        let rest = lines_acc(tail.skip(1), Seq::empty());
        assert(ls == seq![strip_cr(x + w)] + rest);
        if w.len() > 0 && w[w.len() - 1] == '\r' {
            assert((x + w)[(x + w).len() - 1] == '\r');
            let u = w.take(w.len() - 1);
            assert(strip_cr(x + w) =~= x + u);
            assert(all_ws_no_nl(u));
            assert(ls[0] == x + u && all_ws_no_nl(u));
        } else {
            assert(strip_cr(x + w) == x + w) by {
                if (x + w).len() > 0 {
                    if w.len() > 0 {
                        assert((x + w)[(x + w).len() - 1] == w[w.len() - 1]);
                    } else {
                        assert((x + w)[(x + w).len() - 1] == x[x.len() - 1]);
                        assert(!is_ws(x[x.len() - 1]));
                    }
                }
            }
            assert(ls[0] == x + w && all_ws_no_nl(w));
        }
        assert forall|k: int| 1 <= k < ls.len() implies all_ws(#[trigger] ls[k]) by {
            assert(ls[k] == rest[k - 1]);
        }
    } else {
        assert(is_ws(tail[0]));
        assert(all_ws(tail.skip(1))) by {
            assert(forall|i: int|
                0 <= i < tail.skip(1).len() ==> #[trigger] tail.skip(1)[i] == tail[i + 1]);
        }
        let w2 = w.push(tail[0]);
        assert(all_ws_no_nl(w2));
        assert((x + w).push(tail[0]) =~= x + w2);
        lemma_lines_ws_tail(x, w2, tail.skip(1));
        assert(ls == lines_acc(tail.skip(1), x + w2));
    }
}

/// A needle holding a non-whitespace character finds no
/// whitespace-only line.
proof fn lemma_first_line_all_ws(ls: Seq<Seq<char>>, needle: Seq<char>)
    requires
        forall|k: int| 0 <= k < ls.len() ==> all_ws(#[trigger] ls[k]),
        forall|i: int| 0 <= i < needle.len() ==> !is_ws(#[trigger] needle[i]),
        needle.len() > 0,
    ensures
        first_line_with(ls, needle) is None,
    decreases ls.len(),
{
    if ls.len() > 0 {
        assert(!contains_seq(ls[0], needle)) by {
            if contains_seq(ls[0], needle) {
                let i = choose|i: int| crate::text::match_at(ls[0], needle, i);
                assert(ls[0].subrange(i, i + needle.len())[0] == needle[0]);
                assert(ls[0][i] == needle[0]);
            }
        }
        assert(forall|k: int| 0 <= k < ls.skip(1).len() ==> all_ws(#[trigger] ls.skip(1)[k])) by {
            assert(forall|k: int| 0 <= k < ls.skip(1).len() ==> ls.skip(1)[k] == ls[k + 1]);
        }
        lemma_first_line_all_ws(ls.skip(1), needle);
    }
}

/// The hash column read off a manifest line `digest + u` — the line up
/// to its last space, or the whole manifest `digest + tail` where the
/// line holds no space — trims to the digest itself.
proof fn lemma_hash_column_ws(digest: Seq<char>, u: Seq<char>, tail: Seq<char>)
    requires
        forall|i: int| 0 <= i < digest.len() ==> is_lower_hex_char(#[trigger] digest[i]),
        all_ws(u),
        all_ws(tail),
    ensures
        last_index_of(digest + u, ' ') >= 0 ==> trim_seq(
            (digest + u).take(last_index_of(digest + u, ' ')),
        ) == digest,
        last_index_of(digest + u, ' ') < 0 ==> trim_seq(digest + tail) == digest,
{
    let line = digest + u;
    let idx = last_index_of(line, ' ');
    crate::text::lemma_last_index_of(line, ' ');
    if idx >= 0 {
        assert(line[idx] == ' ');
        assert(idx >= digest.len()) by {
            if idx < digest.len() {
                assert(line[idx] == digest[idx]);
            }
        }
        assert(line.take(idx) =~= digest + u.take(idx - digest.len()));
        assert(all_ws(u.take(idx - digest.len()))) by {
            assert(forall|i: int|
                0 <= i < u.take(idx - digest.len()).len() ==> #[trigger] u.take(
                    idx - digest.len(),
                )[i] == u[i]);
        }
        lemma_trim_hex_ws(digest, u.take(idx - digest.len()));
    } else {
        lemma_trim_hex_ws(digest, tail);
    }
}

/// Manifest fallback: a manifest holding nothing but the bare hex
/// digest — no file name, no trailing text beyond whitespace — still
/// verifies the file, through the whole-content fallback; `tail` is
/// whatever whitespace follows the hash, a trailing line feed
/// included.  The file name must carry no whitespace, as a real file
/// name does not: a name of whitespace could match a whitespace-only
/// line of the manifest and pull the hash column from there.
pub proof fn lemma_bare_hash_fallback(
    file_name: Seq<char>,
    data: Seq<u8>,
    t: HashSumType,
    tail: Seq<char>,
)
    requires
        forall|i: int| 0 <= i < file_name.len() ==> !is_ws(#[trigger] file_name[i]),
        forall|i: int| 0 <= i < tail.len() ==> is_ws(#[trigger] tail[i]),
    ensures
        hash_check_of(file_name, hex_of(digest_of(t, data)) + tail, data, t),
{
    let digest = hex_of(digest_of(t, data));
    let content = digest + tail;
    lemma_hex_of_chars(digest_of(t, data));
    assert(forall|i: int| 0 <= i < digest.len() ==> !is_ws(#[trigger] digest[i]));
    lemma_lines_acc_append(digest, tail, Seq::empty());
    assert(Seq::<char>::empty() + digest =~= digest);
    assert(digest + Seq::<char>::empty() =~= digest);
    lemma_lines_ws_tail(digest, Seq::empty(), tail);
    let ls = lines_of(content);
    assert(ls == lines_acc(tail, digest));
    let stated = expected_hash_of(file_name, content);
    if content.len() == 0 {
        assert(digest =~= Seq::<char>::empty());
        assert(tail =~= Seq::<char>::empty());
        assert(ls =~= Seq::<Seq<char>>::empty());
        assert(first_line_with(ls, file_name) is None);
        assert(last_index_of(content, ' ') == -1);
        assert(stated == content);
        assert(trim_seq(stated) =~= digest);
    } else {
        let u = choose|u: Seq<char>| ls[0] == digest + u && all_ws_no_nl(u);
        assert(all_ws(u));
        if contains_seq(ls[0], file_name) {
            assert(first_line_with(ls, file_name) == Some(ls[0]));
            lemma_hash_column_ws(digest, u, tail);
            assert(stated == (if last_index_of(ls[0], ' ') >= 0 {
                ls[0].take(last_index_of(ls[0], ' '))
            } else {
                content
            }));
            assert(trim_seq(stated) == digest);
        } else {
            assert(file_name.len() > 0) by {
                if file_name.len() == 0 {
                    assert(ls[0].subrange(0, 0) =~= file_name);
                    assert(crate::text::match_at(ls[0], file_name, 0));
                }
            }
            assert(forall|k: int| 0 <= k < ls.skip(1).len() ==> all_ws(#[trigger] ls.skip(1)[k]))
                by {
                assert(forall|k: int| 0 <= k < ls.skip(1).len() ==> ls.skip(1)[k] == ls[k + 1]);
            }
            lemma_first_line_all_ws(ls.skip(1), file_name);
            assert(first_line_with(ls, file_name) is None);
            lemma_hash_column_ws(digest, tail, tail);
            assert(stated == (if last_index_of(content, ' ') >= 0 {
                content.take(last_index_of(content, ' '))
            } else {
                content
            }));
            assert(trim_seq(stated) == digest);
        }
    }
    lemma_lower_hex_id(digest);
}

/// Checks the bytes of a downloaded file against a checksum manifest.
///
/// `file_name` names the downloaded file inside the manifest;
/// `git_hash.sum_content` holds the manifest's text.  Returns whether
/// the digest matches, never an error: a manifest without a usable line
/// falls back to being read as one bare hash.
pub fn hash_check_file(file_name: &str, data: &[u8], git_hash: &HashSums) -> (r: bool)
    ensures
        r == hash_check_of(file_name@, git_hash.sum_content@, data@, git_hash.sum_type),
{
    let digest = match git_hash.sum_type {
        HashSumType::Sha512 => sha512_digest(data),
        HashSumType::Sha256 => sha256_digest(data),
    };
    digest_matches_manifest(file_name, &digest, git_hash)
}

/// Checks a file read in a stream against a checksum manifest: the
/// caller feeds the file's bytes to `digest` chunk by chunk and hands
/// it over whole.
pub fn hash_check_stream(file_name: &str, digest: StreamingDigest, git_hash: &HashSums) -> (r:
    bool)
    requires
        digest.kind() == git_hash.sum_type,
    ensures
        r == hash_check_of(file_name@, git_hash.sum_content@, digest.fed(), git_hash.sum_type),
{
    let out = digest.finalize();
    digest_matches_manifest(file_name, &out, git_hash)
}

/// Compares a computed digest against what the manifest states for
/// `file_name`, per [`hash_check_of`]'s comparison: hex encoding
/// against the stated hash, whitespace dropped and case folded.
fn digest_matches_manifest(file_name: &str, digest: &Vec<u8>, git_hash: &HashSums) -> (r: bool)
    ensures
        r == (hex_of(digest@) == lower_hex_seq(
            trim_seq(expected_hash_of(file_name@, git_hash.sum_content@)),
        )),
{
    let stated = expected_hash(file_name, git_hash.sum_content.as_str());
    let trimmed = trim_str(stated.as_str());
    let folded = lower_hex(trimmed.as_str());
    let encoded = hex_encode(digest);
    encoded == folded
}

} // verus!
