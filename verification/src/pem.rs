//! Certificate chains in PEM form: every certificate of a file is read, and
//! the chain is written again as one document.

use base64::Engine;
use vstd::prelude::*;

verus! {

/// The longest certificate that is read from a PEM document, in bytes.
pub const MAX_CERTIFICATE_BYTES: usize = 201_326_592;

/// The longest certificate whose PEM block, with its line ends, is certain to
/// be read back.
pub const MAX_REREADABLE_BYTES: usize = 184_549_376;

/// Width of the lines of a PEM block.
pub const LINE_CHARS: usize = 64;

/// The character of the standard base64 alphabet for a value below 64.
pub open spec fn base64_digit(v: int) -> char {
    if v < 26 {
        ('A' as u8 + v) as u8 as char
    } else if v < 52 {
        ('a' as u8 + (v - 26)) as u8 as char
    } else if v < 62 {
        ('0' as u8 + (v - 52)) as u8 as char
    } else if v == 62 {
        '+'
    } else {
        '/'
    }
}

/// The byte at position `i`, or zero past the end.
pub open spec fn byte_or_zero(bytes: Seq<u8>, i: int) -> int {
    if i < bytes.len() {
        bytes[i] as int
    } else {
        0
    }
}

/// `bytes` in base64: four characters for each group of three bytes, six bits
/// each, with `=` for those that the last group lacks.
pub open spec fn base64_text(bytes: Seq<u8>) -> Seq<char> {
    Seq::new(
        4 * ((bytes.len() + 2) / 3),
        |i: int|
            {
                let at = 3 * (i / 4);
                let first = byte_or_zero(bytes, at);
                let second = byte_or_zero(bytes, at + 1);
                let third = byte_or_zero(bytes, at + 2);
                if i % 4 == 0 {
                    base64_digit(first / 4)
                } else if i % 4 == 1 {
                    base64_digit((first % 4) * 16 + second / 16)
                } else if i % 4 == 2 {
                    if at + 1 < bytes.len() {
                        base64_digit((second % 16) * 4 + third / 64)
                    } else {
                        '='
                    }
                } else {
                    if at + 2 < bytes.len() {
                        base64_digit(third % 64)
                    } else {
                        '='
                    }
                }
            },
    )
}

/// `Engine::encode` of the engine `STANDARD`: the standard alphabet, with
/// padding. The length is limited so that the size of the text is computed
/// without overflow.
#[verifier::external_body]
pub(crate) fn base64_encode(bytes: &[u8]) -> (r: String)
    requires
        bytes@.len() <= MAX_CERTIFICATE_BYTES,
    ensures
        r@ == base64_text(bytes@),
{
    base64::engine::general_purpose::STANDARD.encode(bytes)
}

/// `text` cut into lines of 64 characters, each ended by a line feed; the last
/// line may be shorter.
pub open spec fn in_lines(text: Seq<char>) -> Seq<char>
    decreases text.len(),
{
    if text.len() == 0 {
        Seq::empty()
    } else if text.len() <= LINE_CHARS {
        text.push('\n')
    } else {
        text.take(LINE_CHARS as int).push('\n') + in_lines(text.skip(LINE_CHARS as int))
    }
}

/// The line that opens a block.
pub open spec fn begin_line() -> Seq<char> {
    "-----BEGIN CERTIFICATE-----\n"@
}

/// The line that closes a block.
pub open spec fn end_line() -> Seq<char> {
    "-----END CERTIFICATE-----\n"@
}

/// The PEM block of one certificate.
pub open spec fn pem_block(certificate: Seq<u8>) -> Seq<char> {
    begin_line() + in_lines(base64_text(certificate)) + end_line()
}

/// The PEM document of a chain: the block of each certificate, in order.
pub open spec fn pem_chain(certificates: Seq<Seq<u8>>) -> Seq<char>
    decreases certificates.len(),
{
    if certificates.len() == 0 {
        Seq::empty()
    } else {
        pem_chain(certificates.drop_last()) + pem_block(certificates.last())
    }
}

/// The contents of a list of byte strings.
pub open spec fn contents(list: Seq<Vec<u8>>) -> Seq<Seq<u8>> {
    list.map_values(|bytes: Vec<u8>| bytes@)
}

/// Whether `document` is the chain of these certificates, none of them too
/// large to be read back.
pub open spec fn is_chain_document(document: Seq<u8>, certificates: Seq<Seq<u8>>) -> bool {
    &&& document == vstd::utf8::encode_utf8(pem_chain(certificates))
    &&& forall|i: int|
        0 <= i < certificates.len() ==> (#[trigger] certificates[i]).len() <= MAX_REREADABLE_BYTES
}

/// The certificates of a PEM document, in the order in which they stand there,
/// or why the document cannot be read.
pub uninterp spec fn pem_certificates(document: Seq<u8>) -> Result<Seq<Seq<u8>>, Seq<char>>;

/// `rustls_pemfile::certs` on a document in memory, collected; an error as its
/// message. What it returns is a function of the document, and no certificate
/// exceeds what a section of the size that it accepts can hold. A document that
/// is a chain of moderately sized certificates in the form written here is read
/// as these certificates.
#[verifier::external_body]
pub(crate) fn read_certificates(document: &[u8]) -> (r: Result<Vec<Vec<u8>>, String>)
    ensures
        match r {
            Ok(list) => pem_certificates(document@) == Ok::<_, Seq<char>>(contents(list@)),
            Err(message) => pem_certificates(document@) == Err::<Seq<Seq<u8>>, _>(message@),
        },
        r matches Ok(list) ==> forall|i: int|
            0 <= i < list@.len() ==> (#[trigger] list@[i])@.len() <= MAX_CERTIFICATE_BYTES,
        forall|chain: Seq<Seq<u8>>|
            #[trigger] is_chain_document(document@, chain) ==> r is Ok && contents(r->Ok_0@)
                == chain,
{
    let mut reader = document;
    rustls_pemfile::certs(&mut reader)
        .map(|item| item.map(|der| der.as_ref().to_vec()))
        .collect::<std::io::Result<Vec<Vec<u8>>>>()
        .map_err(|error| error.to_string())
}

/// Cutting one more full line off the front of what follows.
proof fn lemma_lines_extend(text: Seq<char>, n: int)
    requires
        0 <= n,
        LINE_CHARS * n + LINE_CHARS <= text.len(),
    ensures
        in_lines(text.take(LINE_CHARS * n + LINE_CHARS)) == in_lines(text.take(LINE_CHARS * n))
            + text.subrange(LINE_CHARS * n, LINE_CHARS * n + LINE_CHARS).push('\n'),
    decreases n,
{
    let upto = text.take(LINE_CHARS * n + LINE_CHARS);
    if n == 0 {
        assert(text.take(LINE_CHARS * n) == Seq::<char>::empty());
        assert(upto == text.subrange(0, LINE_CHARS as int));
    } else {
        let rest = text.skip(LINE_CHARS as int);
        lemma_lines_extend(rest, n - 1);
        assert(upto.skip(LINE_CHARS as int) == rest.take(LINE_CHARS * (n - 1) + LINE_CHARS));
        assert(upto.take(LINE_CHARS as int) == text.take(LINE_CHARS as int));
        assert(text.subrange(LINE_CHARS * n, LINE_CHARS * n + LINE_CHARS) == rest.subrange(
            LINE_CHARS * (n - 1),
            LINE_CHARS * (n - 1) + LINE_CHARS,
        ));
        let before = text.take(LINE_CHARS * n);
        if n == 1 {
            assert(rest.take(0) == Seq::<char>::empty());
            assert(before == text.take(LINE_CHARS as int));
        } else {
            assert(before.skip(LINE_CHARS as int) == rest.take(LINE_CHARS * (n - 1)));
            assert(before.take(LINE_CHARS as int) == text.take(LINE_CHARS as int));
        }
    }
}

/// A last line that is not full follows the full ones.
proof fn lemma_lines_end(text: Seq<char>, n: int)
    requires
        0 <= n,
        LINE_CHARS * n < text.len() < LINE_CHARS * n + LINE_CHARS,
    ensures
        in_lines(text) == in_lines(text.take(LINE_CHARS * n)) + text.skip(LINE_CHARS * n).push(
            '\n',
        ),
    decreases n,
{
    if n == 0 {
        assert(text.take(LINE_CHARS * n) == Seq::<char>::empty());
        assert(text.skip(LINE_CHARS * n) == text);
    } else {
        let rest = text.skip(LINE_CHARS as int);
        lemma_lines_end(rest, n - 1);
        let before = text.take(LINE_CHARS * n);
        assert(text.skip(LINE_CHARS * n) == rest.skip(LINE_CHARS * (n - 1)));
        if n == 1 {
            assert(rest.take(0) == Seq::<char>::empty());
            assert(before == text.take(LINE_CHARS as int));
        } else {
            assert(before.skip(LINE_CHARS as int) == rest.take(LINE_CHARS * (n - 1)));
            assert(before.take(LINE_CHARS as int) == text.take(LINE_CHARS as int));
        }
    }
}

/// Appends `text` to `out`, cut into lines.
fn push_lines(out: &mut String, text: &str)
    ensures
        final(out)@ == old(out)@ + in_lines(text@),
{
    let ghost start = out@;
    let ghost mut lines: int = 0;
    let mut column: usize = 0;
    for c in it: text.chars()
        invariant
            it.seq() == text@,
            0 <= lines,
            column < LINE_CHARS,
            it.index() == LINE_CHARS * lines + column,
            out@ == start + in_lines(text@.take(LINE_CHARS * lines)) + text@.subrange(
                LINE_CHARS * lines,
                it.index() as int,
            ),
    {
        let ghost at = it.index() as int;
        let ghost from = LINE_CHARS * lines;
        out.push(c);
        assert(text@.subrange(from, at + 1) == text@.subrange(from, at).push(c));
        column = column + 1;
        if column == LINE_CHARS {
            out.push('\n');
            column = 0;
            proof {
                lemma_lines_extend(text@, lines);
                lines = lines + 1;
                assert(text@.subrange(LINE_CHARS * lines, at + 1) == Seq::<char>::empty());
                assert(out@ == start + in_lines(text@.take(LINE_CHARS * lines))
                    + text@.subrange(LINE_CHARS * lines, at + 1));
            }
        }
    }
    if column > 0 {
        out.push('\n');
        proof {
            lemma_lines_end(text@, lines);
            assert(text@.subrange(LINE_CHARS * lines, text@.len() as int) == text@.skip(
                LINE_CHARS * lines,
            ));
        }
    } else {
        assert(text@.take(LINE_CHARS * lines) == text@);
    }
}

/// Writes a chain as one PEM document.
pub fn encode_chain(certificates: &[Vec<u8>]) -> (r: String)
    requires
        forall|i: int|
            0 <= i < certificates@.len() ==> (#[trigger] certificates@[i])@.len()
                <= MAX_CERTIFICATE_BYTES,
    ensures
        r@ == pem_chain(contents(certificates@)),
{
    let mut chain = String::new();
    for i in 0..certificates.len()
        invariant
            forall|i: int|
                0 <= i < certificates@.len() ==> (#[trigger] certificates@[i])@.len()
                    <= MAX_CERTIFICATE_BYTES,
            chain@ == pem_chain(contents(certificates@).take(i as int)),
    {
        let ghost upto = contents(certificates@).take(i + 1);
        assert(upto.drop_last() == contents(certificates@).take(i as int));
        assert(upto.last() == certificates@[i as int]@);
        let text = base64_encode(certificates[i].as_slice());
        chain = chain.concat("-----BEGIN CERTIFICATE-----\n");
        push_lines(&mut chain, text.as_str());
        chain = chain.concat("-----END CERTIFICATE-----\n");
        assert(chain@ == pem_chain(upto));
    }
    assert(contents(certificates@).take(certificates@.len() as int) == contents(certificates@));
    chain
}

/// Why a certificate chain cannot be loaded.
#[derive(Debug, Clone, PartialEq, Eq)]
pub enum CertChainError {
    /// The document is not well formed; with what is wrong in it.
    Malformed(String),
    /// The document holds no certificate.
    NoCertificates,
}

impl CertChainError {
    /// The error in words, for a document that was read from `path`.
    pub fn message(&self, path: &str) -> (r: String)
        ensures
            r@ == (match *self {
                CertChainError::Malformed(message) => message@,
                CertChainError::NoCertificates => "no CERTIFICATE blocks found in '"@ + path@
                    + "'"@,
            }),
    {
        match self {
            CertChainError::Malformed(message) => message.clone(),
            CertChainError::NoCertificates => "no CERTIFICATE blocks found in '".to_owned().concat(
                path,
            ).concat("'"),
        }
    }
}

/// Reads every certificate of a PEM document and writes them as one chain, in
/// the order in which they stand in the document.
pub fn load_cert_chain(document: &[u8]) -> (r: Result<String, CertChainError>)
    ensures
        match pem_certificates(document@) {
            Err(message) => r matches Err(CertChainError::Malformed(text)) && text@ == message,
            Ok(list) if list.len() == 0 => r matches Err(CertChainError::NoCertificates),
            Ok(list) => r matches Ok(chain) && chain@ == pem_chain(list),
        },
        forall|chain: Seq<Seq<u8>>|
            #![trigger is_chain_document(document@, chain)]
            is_chain_document(document@, chain) && chain.len() > 0 ==> (r matches Ok(text)
                && text@ == pem_chain(chain)),
{
    match read_certificates(document) {
        Err(message) => Err(CertChainError::Malformed(message)),
        Ok(list) => {
            if list.is_empty() {
                Err(CertChainError::NoCertificates)
            } else {
                Ok(encode_chain(list.as_slice()))
            }
        },
    }
}

/// Different values have different characters, none of which is padding, a
/// dash or a line feed.
proof fn lemma_base64_digit(v: int, w: int)
    requires
        0 <= v < 64,
        0 <= w < 64,
    ensures
        base64_digit(v) == base64_digit(w) ==> v == w,
        base64_digit(v) != '=',
        base64_digit(v) != '-',
        base64_digit(v) != '\n',
{
}

/// Base64 text holds neither dashes nor line feeds.
proof fn lemma_base64_is_plain(bytes: Seq<u8>, i: int)
    requires
        0 <= i < base64_text(bytes).len(),
    ensures
        base64_text(bytes)[i] != '-',
        base64_text(bytes)[i] != '\n',
{
    let at = 3 * (i / 4);
    let first = byte_or_zero(bytes, at);
    let second = byte_or_zero(bytes, at + 1);
    let third = byte_or_zero(bytes, at + 2);
    lemma_base64_digit(first / 4, 0);
    lemma_base64_digit((first % 4) * 16 + second / 16, 0);
    lemma_base64_digit((second % 16) * 4 + third / 64, 0);
    lemma_base64_digit(third % 64, 0);
}

/// The four characters of the group of bytes that starts at `at`.
proof fn lemma_base64_group(bytes: Seq<u8>, at: int)
    requires
        0 <= at < bytes.len(),
        at % 3 == 0,
    ensures
        4 * (at / 3) + 3 < base64_text(bytes).len(),
        base64_text(bytes)[4 * (at / 3)] == base64_digit(byte_or_zero(bytes, at) / 4),
        base64_text(bytes)[4 * (at / 3) + 1] == base64_digit(
            (byte_or_zero(bytes, at) % 4) * 16 + byte_or_zero(bytes, at + 1) / 16,
        ),
        base64_text(bytes)[4 * (at / 3) + 2] == (if at + 1 < bytes.len() {
            base64_digit((byte_or_zero(bytes, at + 1) % 16) * 4 + byte_or_zero(bytes, at + 2) / 64)
        } else {
            '='
        }),
        base64_text(bytes)[4 * (at / 3) + 3] == (if at + 2 < bytes.len() {
            base64_digit(byte_or_zero(bytes, at + 2) % 64)
        } else {
            '='
        }),
{
    let group = at / 3;
    assert((4 * group) / 4 == group && (4 * group) % 4 == 0);
    assert((4 * group + 1) / 4 == group && (4 * group + 1) % 4 == 1);
    assert((4 * group + 2) / 4 == group && (4 * group + 2) % 4 == 2);
    assert((4 * group + 3) / 4 == group && (4 * group + 3) % 4 == 3);
}

/// Two byte strings with the same base64 text have the same bytes in each group,
/// and end in the same group at the same place.
proof fn lemma_same_group(a: Seq<u8>, b: Seq<u8>, at: int)
    requires
        base64_text(a) == base64_text(b),
        0 <= at < a.len(),
        at < b.len(),
        at % 3 == 0,
    ensures
        a[at] == b[at],
        at + 1 < a.len() <==> at + 1 < b.len(),
        at + 2 < a.len() <==> at + 2 < b.len(),
        at + 1 < a.len() ==> a[at + 1] == b[at + 1],
        at + 2 < a.len() ==> a[at + 2] == b[at + 2],
{
    lemma_base64_group(a, at);
    lemma_base64_group(b, at);
    let (a0, a1, a2) = (byte_or_zero(a, at), byte_or_zero(a, at + 1), byte_or_zero(a, at + 2));
    let (b0, b1, b2) = (byte_or_zero(b, at), byte_or_zero(b, at + 1), byte_or_zero(b, at + 2));
    lemma_base64_digit(a0 / 4, b0 / 4);
    lemma_base64_digit((a0 % 4) * 16 + a1 / 16, (b0 % 4) * 16 + b1 / 16);
    lemma_base64_digit((a1 % 16) * 4 + a2 / 64, (b1 % 16) * 4 + b2 / 64);
    lemma_base64_digit((b1 % 16) * 4 + b2 / 64, 0);
    lemma_base64_digit(a2 % 64, b2 % 64);
    lemma_base64_digit(b2 % 64, 0);
}

/// Two byte strings with the same base64 text are the same.
proof fn lemma_base64_injective(a: Seq<u8>, b: Seq<u8>)
    requires
        base64_text(a) == base64_text(b),
    ensures
        a == b,
{
    assert(base64_text(a).len() == 4 * ((a.len() + 2) / 3));
    assert(base64_text(b).len() == 4 * ((b.len() + 2) / 3));
    if a.len() > 0 {
        lemma_same_group(a, b, 3 * ((a.len() as int - 1) / 3));
    }
    assert(a.len() == b.len());
    assert forall|k: int| 0 <= k < a.len() implies a[k] == b[k] by {
        lemma_same_group(a, b, 3 * (k / 3));
    }
}

/// Two texts without line feeds that give the same lines are the same.
proof fn lemma_lines_injective(a: Seq<char>, b: Seq<char>)
    requires
        in_lines(a) == in_lines(b),
        !a.contains('\n'),
        !b.contains('\n'),
    ensures
        a == b,
    decreases a.len(),
{
    let width = LINE_CHARS as int;
    if a.len() == 0 || b.len() == 0 {
        assert(a.len() > 0 ==> in_lines(a).contains('\n')) by {
            if a.len() > width {
                assert(in_lines(a)[width] == '\n');
            } else if a.len() > 0 {
                assert(in_lines(a)[a.len() as int] == '\n');
            }
        }
        assert(b.len() > 0 ==> in_lines(b).contains('\n')) by {
            if b.len() > width {
                assert(in_lines(b)[width] == '\n');
            } else if b.len() > 0 {
                assert(in_lines(b)[b.len() as int] == '\n');
            }
        }
        assert(a == b);
    } else {
        let m: int = if a.len() < width {
            a.len() as int
        } else {
            width
        };
        let n: int = if b.len() < width {
            b.len() as int
        } else {
            width
        };
        assert(in_lines(a)[m] == '\n');
        assert(in_lines(b)[n] == '\n');
        assert forall|i: int| 0 <= i < m implies #[trigger] in_lines(a)[i] == a[i] && a[i]
            != '\n' by {
            assert(a.contains(a[i]));
        }
        assert forall|i: int| 0 <= i < n implies #[trigger] in_lines(b)[i] == b[i] && b[i]
            != '\n' by {
            assert(b.contains(b[i]));
        }
        assert(m == n);
        assert(a.take(m) == b.take(m)) by {
            assert forall|i: int| 0 <= i < m implies a[i] == b[i] by {
                assert(in_lines(a)[i] == a[i]);
                assert(in_lines(b)[i] == b[i]);
            }
        }
        assert(in_lines(a).skip(m + 1) == in_lines(a.skip(m)));
        assert(in_lines(b).skip(m + 1) == in_lines(b.skip(m)));
        lemma_lines_injective(a.skip(m), b.skip(m));
        assert(a == a.take(m) + a.skip(m));
        assert(b == b.take(m) + b.skip(m));
    }
}

/// Cutting text without dashes into lines adds none.
proof fn lemma_lines_have_no_dash(text: Seq<char>)
    requires
        !text.contains('-'),
    ensures
        !in_lines(text).contains('-'),
    decreases text.len(),
{
    let width = LINE_CHARS as int;
    let lines = in_lines(text);
    if text.len() > width {
        assert forall|c: char| text.skip(width).contains(c) implies text.contains(c) by {
            let i = text.skip(width).index_of(c);
            assert(text[i + width] == c);
        }
        lemma_lines_have_no_dash(text.skip(width));
    }
    assert forall|i: int| 0 <= i < lines.len() implies lines[i] != '-' by {
        if i < text.len() && i < width {
            assert(text.contains(text[i]));
        } else if text.len() > width && i > width {
            let rest = in_lines(text.skip(width));
            assert(lines[i] == rest[i - width - 1]);
            assert(rest.contains(rest[i - width - 1]));
        }
    }
}

/// A chain is the block of its first certificate and then the rest.
proof fn lemma_chain_from_front(certificates: Seq<Seq<u8>>)
    requires
        certificates.len() > 0,
    ensures
        pem_chain(certificates) == pem_block(certificates[0]) + pem_chain(
            certificates.drop_first(),
        ),
    decreases certificates.len(),
{
    if certificates.len() == 1 {
        assert(pem_chain(certificates.drop_last()) == Seq::<char>::empty());
        assert(pem_chain(certificates.drop_first()) == Seq::<char>::empty());
    } else {
        lemma_chain_from_front(certificates.drop_last());
        assert(certificates.drop_last().drop_first() == certificates.drop_first().drop_last());
    }
}

/// The block of a certificate, at the front of a document, shows where it ends
/// and which certificate it is.
proof fn lemma_front_block(a: Seq<u8>, after_a: Seq<char>, b: Seq<u8>, after_b: Seq<char>)
    requires
        pem_block(a) + after_a == pem_block(b) + after_b,
    ensures
        a == b,
        after_a == after_b,
{
    reveal_strlit("-----BEGIN CERTIFICATE-----\n");
    reveal_strlit("-----END CERTIFICATE-----\n");
    let whole = pem_block(a) + after_a;
    let head = begin_line().len() as int;
    let text_a = base64_text(a);
    let text_b = base64_text(b);
    let lines_a = in_lines(text_a);
    let lines_b = in_lines(text_b);
    assert(!text_a.contains('-') && !text_a.contains('\n')) by {
        assert forall|i: int| 0 <= i < text_a.len() implies text_a[i] != '-' && text_a[i]
            != '\n' by {
            lemma_base64_is_plain(a, i);
        }
    }
    assert(!text_b.contains('-') && !text_b.contains('\n')) by {
        assert forall|i: int| 0 <= i < text_b.len() implies text_b[i] != '-' && text_b[i]
            != '\n' by {
            lemma_base64_is_plain(b, i);
        }
    }
    lemma_lines_have_no_dash(text_a);
    lemma_lines_have_no_dash(text_b);
    assert(end_line()[0] == '-');
    assert(whole[head + lines_a.len()] == '-');
    assert(whole[head + lines_b.len()] == '-');
    if lines_a.len() < lines_b.len() {
        assert(whole[head + lines_a.len()] == lines_b[lines_a.len() as int]);
        assert(lines_b.contains(lines_b[lines_a.len() as int]));
    }
    if lines_b.len() < lines_a.len() {
        assert(whole[head + lines_b.len()] == lines_a[lines_b.len() as int]);
        assert(lines_a.contains(lines_a[lines_b.len() as int]));
    }
    assert(lines_a == whole.subrange(head, head + lines_a.len()));
    assert(lines_b == whole.subrange(head, head + lines_a.len()));
    lemma_lines_injective(text_a, text_b);
    lemma_base64_injective(a, b);
    let n = pem_block(a).len() as int;
    assert(after_a == whole.skip(n));
    assert(after_b == whole.skip(n));
}

/// A chain holds every certificate that it was made from, in order: two lists of
/// certificates with the same PEM document are the same.
pub proof fn chain_keeps_every_certificate(a: Seq<Seq<u8>>, b: Seq<Seq<u8>>)
    requires
        pem_chain(a) == pem_chain(b),
    ensures
        a == b,
    decreases a.len(),
{
    reveal_strlit("-----BEGIN CERTIFICATE-----\n");
    if a.len() > 0 {
        lemma_chain_from_front(a);
        assert(pem_chain(a).len() >= pem_block(a[0]).len() > 0);
    }
    if b.len() > 0 {
        lemma_chain_from_front(b);
        assert(pem_chain(b).len() >= pem_block(b[0]).len() > 0);
    }
    if a.len() == 0 || b.len() == 0 {
        assert(pem_chain(a).len() == pem_chain(b).len());
        assert(a.len() == b.len());
    } else {
        lemma_front_block(
            a[0],
            pem_chain(a.drop_first()),
            b[0],
            pem_chain(b.drop_first()),
        );
        chain_keeps_every_certificate(a.drop_first(), b.drop_first());
        assert(a == seq![a[0]] + a.drop_first());
        assert(b == seq![b[0]] + b.drop_first());
    }
}

/// Where the characters of a text stand once it is cut into lines of 64.
proof fn lemma_line_positions(text: Seq<char>, i: int, k: int)
    ensures
        in_lines(text).len() == text.len() + (text.len() + 63) / 64,
        0 <= i < text.len() ==> in_lines(text)[i + i / 64] == text[i],
        0 <= k && 64 * k + 64 <= text.len() ==> in_lines(text)[65 * k + 64] == '\n',
        text.len() > 0 ==> in_lines(text).last() == '\n',
    decreases text.len(),
{
    if text.len() > 64 {
        let rest = text.skip(64);
        lemma_line_positions(rest, i - 64, k - 1);
        let first = text.take(64).push('\n');
        assert(in_lines(text) == first + in_lines(rest));
        assert((text.len() + 63) / 64 == (rest.len() + 63) / 64 + 1);
        if 64 <= i < text.len() {
            assert((i - 64) / 64 == i / 64 - 1);
            assert(in_lines(text)[i + i / 64] == in_lines(rest)[i - 64 + (i - 64) / 64]);
        }
        if 0 <= i < 64 {
            assert(i / 64 == 0);
        }
        if k >= 1 && 64 * k + 64 <= text.len() {
            assert(in_lines(text)[65 * k + 64] == in_lines(rest)[65 * (k - 1) + 64]);
        }
        if k == 0 {
            assert(first[64] == '\n');
        }
        assert(in_lines(text).last() == in_lines(rest).last());
    }
}

/// The document of one certificate is its opening line, its base64 text in lines of
/// 64 characters, the last of which may be shorter, and its closing line.
pub proof fn certificates_are_laid_out_in_lines(
    certificates: &[Vec<u8>],
    r: String,
    i: int,
    k: int,
)
    requires
        call_ensures(encode_chain, (certificates,), r),
        certificates@.len() == 1,
    ensures
        ({
            let text = base64_text(certificates@[0]@);
            let n: int = text.len() + (text.len() as int + 63) / 64;
            &&& r@.len() == 28 + n + 26
            &&& r@.take(28) == "-----BEGIN CERTIFICATE-----\n"@
            &&& r@.skip(28 + n) == "-----END CERTIFICATE-----\n"@
            &&& 0 <= i < text.len() ==> r@[28 + i + i / 64] == text[i]
            &&& 0 <= k && 64 * k + 64 <= text.len() ==> r@[28 + 65 * k + 64] == '\n'
            &&& text.len() > 0 ==> r@[28 + n - 1] == '\n'
        }),
{
    reveal_strlit("-----BEGIN CERTIFICATE-----\n");
    reveal_strlit("-----END CERTIFICATE-----\n");
    let text = base64_text(certificates@[0]@);
    let list = contents(certificates@);
    assert(list.drop_last() == Seq::<Seq<u8>>::empty());
    assert(pem_chain(list.drop_last()) == Seq::<char>::empty());
    assert(r@ == begin_line() + in_lines(text) + end_line());
    lemma_line_positions(text, i, k);
    let n = in_lines(text).len() as int;
    assert(r@.take(28) == begin_line());
    assert(r@.skip(28 + n) == end_line());
    if 0 <= i < text.len() {
        assert(r@[28 + i + i / 64] == in_lines(text)[i + i / 64]);
    }
}

/// The document of one list of certificates and then another is the document of the
/// first and then that of the second; no certificates give no text.
pub proof fn chains_are_written_in_order(
    a: &[Vec<u8>],
    b: &[Vec<u8>],
    both: &[Vec<u8>],
    from_a: String,
    from_b: String,
    from_both: String,
)
    requires
        call_ensures(encode_chain, (a,), from_a),
        call_ensures(encode_chain, (b,), from_b),
        call_ensures(encode_chain, (both,), from_both),
        both@ == a@ + b@,
    ensures
        from_both@ == from_a@ + from_b@,
        a@.len() == 0 ==> from_a@.len() == 0,
{
    assert(contents(both@) == contents(a@) + contents(b@));
    lemma_chain_joins(contents(a@), contents(b@));
}

/// The document of two lists.
proof fn lemma_chain_joins(a: Seq<Seq<u8>>, b: Seq<Seq<u8>>)
    ensures
        pem_chain(a + b) == pem_chain(a) + pem_chain(b),
    decreases b.len(),
{
    if b.len() == 0 {
        assert(a + b == a);
    } else {
        assert((a + b).drop_last() == a + b.drop_last());
        lemma_chain_joins(a, b.drop_last());
    }
}

/// Loading a document writes every certificate that stands in it, in its order. A
/// document that cannot be read is answered with what is wrong in it, and one without
/// certificates with that.
pub proof fn loading_keeps_every_certificate(
    document: &[u8],
    r: Result<String, CertChainError>,
    list: &[Vec<u8>],
    written: String,
)
    requires
        call_ensures(load_cert_chain, (document,), r),
        call_ensures(encode_chain, (list,), written),
    ensures
        match pem_certificates(document@) {
            Ok(found) => {
                &&& found.len() == 0 <==> r == Err::<String, _>(CertChainError::NoCertificates)
                &&& found.len() > 0 <==> r is Ok
                &&& found.len() > 0 && found.len() == list@.len() && (forall|i: int|
                    0 <= i < found.len() ==> #[trigger] found[i] == list@[i]@) ==> (r matches Ok(
                    text,
                ) && text@ == written@)
            },
            Err(message) => r matches Err(CertChainError::Malformed(text)) && text@ == message,
        },
{
    if let Ok(found) = pem_certificates(document@) {
        if found.len() > 0 && found.len() == list@.len() && (forall|i: int|
            0 <= i < found.len() ==> #[trigger] found[i] == list@[i]@) {
            assert(found == contents(list@));
        }
    }
}

/// A document that was written from some certificates, none of them too large, is
/// loaded as the same text again.
pub proof fn written_chains_load_unchanged(
    list: &[Vec<u8>],
    written: String,
    document: &[u8],
    r: Result<String, CertChainError>,
)
    requires
        call_ensures(encode_chain, (list,), written),
        call_ensures(load_cert_chain, (document,), r),
        list@.len() > 0,
        forall|i: int| 0 <= i < list@.len() ==> (#[trigger] list@[i])@.len() <= 184_549_376,
        document@ == vstd::utf8::encode_utf8(written@),
    ensures
        r matches Ok(text) && text@ == written@,
{
    let chain = contents(list@);
    assert(is_chain_document(document@, chain));
}

/// Two lists of certificates that are written as the same document are the same.
pub proof fn documents_tell_chains_apart(
    a: &[Vec<u8>],
    b: &[Vec<u8>],
    from_a: String,
    from_b: String,
)
    requires
        call_ensures(encode_chain, (a,), from_a),
        call_ensures(encode_chain, (b,), from_b),
        from_a@ == from_b@,
    ensures
        a@.len() == b@.len(),
        forall|i: int| 0 <= i < a@.len() ==> (#[trigger] a@[i])@ == b@[i]@,
{
    chain_keeps_every_certificate(contents(a@), contents(b@));
    assert(contents(a@).len() == contents(b@).len());
    assert forall|i: int| 0 <= i < a@.len() implies (#[trigger] a@[i])@ == b@[i]@ by {
        assert(contents(a@)[i] == contents(b@)[i]);
    }
}

/// The error of an empty document names the path; that of a malformed one is what is
/// wrong in it.
pub proof fn chain_errors_are_told(error: CertChainError, path: &str, r: String)
    requires
        call_ensures(CertChainError::message, (&error, path), r),
    ensures
        error is NoCertificates ==> r@ == "no CERTIFICATE blocks found in '"@ + path@ + "'"@,
        error matches CertChainError::Malformed(text) ==> r@ == text@,
{
}

} // verus!
