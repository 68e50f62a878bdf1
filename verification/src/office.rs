//! What can be read of files that are not plain text: the readable strings of
//! any bytes, the entries of an archive, the pages of a PDF. What is read is
//! always reported as partial.
use vstd::prelude::*;

use crate::boundary;
use crate::decimal;
use crate::num;
use crate::text;
use crate::types;

verus! {

// ---- readable strings --------------------------------------------------------------------

/// A byte of readable ASCII text.
pub open spec fn is_printable(b: u8) -> bool {
    0x20 <= b < 0x7f || b == 0x0a || b == 0x09
}

/// Where the search for readable strings stands.
pub struct Strings {
    /// What was found, one string to a line.
    pub found: Seq<char>,
    /// The run of readable characters just read.
    pub run: Seq<char>,
    /// Enough was found.
    pub full: bool,
}

/// A run as it is kept: trimmed, and only if four characters are left.
pub open spec fn kept_run(run: Seq<char>) -> Seq<char> {
    if text::trimmed(run).len() >= 4 {
        text::trimmed(run)
    } else {
        Seq::empty()
    }
}

/// The search after one byte more. A run ends at a byte that is not readable,
/// or after 400 characters.
pub open spec fn after_byte(s: Strings, b: u8, cap: nat) -> Strings {
    if s.full {
        s
    } else if is_printable(b) {
        let run = s.run.push(b as char);
        if run.len() > 400 {
            let found = s.found + run + seq!['\n'];
            Strings { found, run: Seq::empty(), full: found.len() >= cap }
        } else {
            Strings { found: s.found, run, full: false }
        }
    } else if s.run.len() > 0 {
        let found = if kept_run(s.run).len() > 0 {
            s.found + kept_run(s.run) + seq!['\n']
        } else {
            s.found
        };
        Strings { found, run: Seq::empty(), full: found.len() >= cap }
    } else {
        s
    }
}

/// The search after the first `n` bytes.
pub open spec fn after_bytes(bytes: Seq<u8>, n: int, cap: nat) -> Strings
    decreases n,
{
    if n <= 0 {
        Strings { found: Seq::empty(), run: Seq::empty(), full: false }
    } else {
        after_byte(after_bytes(bytes, n - 1, cap), bytes[n - 1], cap)
    }
}

/// The readable strings of the bytes, one to a line, `cap` characters at most.
pub open spec fn strings_in(bytes: Seq<u8>, cap: nat) -> Seq<char> {
    let s = after_bytes(bytes, bytes.len() as int, cap);
    text::first_chars(
        if s.found.len() < cap {
            s.found + kept_run(s.run)
        } else {
            s.found
        },
        cap,
    )
}

/// Once enough is found nothing changes.
proof fn lemma_full_stays(bytes: Seq<u8>, from: int, n: int, cap: nat)
    requires
        0 <= from <= n,
        after_bytes(bytes, from, cap).full,
    ensures
        after_bytes(bytes, n, cap) == after_bytes(bytes, from, cap),
    decreases n,
{
    if from < n {
        lemma_full_stays(bytes, from, n - 1, cap);
    }
}

/// A run as it is kept.
fn kept_run_of(run: &str) -> (s: String)
    ensures
        s@ == kept_run(run@),
{
    let t = text::trim(run);
    if text::char_count(&t) >= 4 {
        t
    } else {
        String::new()
    }
}

/// The readable strings of the bytes: runs of four characters or more, one to
/// a line, `cap` characters at most.
pub fn printable_strings(bytes: &[u8], cap: usize) -> (r: String)
    ensures
        r@ == strings_in(bytes@, cap as nat),
        r@.len() <= cap,
{
    let mut found = String::new();
    let mut run = String::new();
    let mut run_len: usize = 0;
    let mut full = false;
    let mut i: usize = 0;
    while i < bytes.len() && !full
        invariant
            i <= bytes@.len(),
            run_len == run@.len(),
            run_len <= 400,
            after_bytes(bytes@, i as int, cap as nat) == (Strings {
                found: found@,
                run: run@,
                full,
            }),
        decreases bytes@.len() - i,
    {
        let b: u8 = bytes[i];
        if (0x20 <= b && b < 0x7f) || b == 0x0a || b == 0x09 {
            run.push(b as char);
            run_len += 1;
            if run_len > 400 {
                let ghost was = found@;
                let ghost read = run@;
                found.append(&run);
                found.push('\n');
                assert(found@ =~= was + read + seq!['\n']);
                full = text::char_count(&found) >= cap;
                run = String::new();
                run_len = 0;
            }
        } else if run_len > 0 {
            let kept = kept_run_of(&run);
            if text::char_count(&kept) > 0 {
                let ghost was = found@;
                found.append(&kept);
                found.push('\n');
                assert(found@ =~= was + kept@ + seq!['\n']);
            }
            full = text::char_count(&found) >= cap;
            run = String::new();
            run_len = 0;
        }
        i += 1;
    }
    proof {
        if full {
            lemma_full_stays(bytes@, i as int, bytes@.len() as int, cap as nat);
        }
    }
    if text::char_count(&found) < cap {
        let last = kept_run_of(&run);
        found.append(&last);
    }
    text::take_chars(&found, cap)
}

// ---- the entries of an archive ---------------------------------------------------------------

/// A number of two bytes, the low one first.
pub open spec fn le16(bytes: Seq<u8>, at: int) -> int {
    bytes[at] as int + 256 * bytes[at + 1] as int
}

/// A number of four bytes, the low one first.
pub open spec fn le32(bytes: Seq<u8>, at: int) -> int {
    le16(bytes, at) + 65536 * le16(bytes, at + 2)
}

/// A local file header stands at `i`.
pub open spec fn header_at(bytes: Seq<u8>, i: int) -> bool {
    bytes[i] == 0x50 && bytes[i + 1] == 0x4b && bytes[i + 2] == 0x03 && bytes[i + 3] == 0x04
}

/// Where the entry whose header is at `i` ends: past its name, its extra field
/// and its data.
pub open spec fn entry_end(bytes: Seq<u8>, i: int) -> int {
    i + 30 + le16(bytes, i + 26) + le16(bytes, i + 28) + le32(bytes, i + 18)
}

/// The names of the entries from `i` on, `cap` at most, as their local headers
/// give them.
pub open spec fn entries_from(bytes: Seq<u8>, i: int, cap: nat) -> Seq<Seq<char>>
    decreases bytes.len() - i,
{
    if i < 0 || i + 30 >= bytes.len() || cap == 0 {
        Seq::empty()
    } else if !header_at(bytes, i) {
        entries_from(bytes, i + 1, cap)
    } else {
        let name_end = i + 30 + le16(bytes, i + 26);
        if name_end > bytes.len() {
            Seq::empty()
        } else {
            seq![boundary::utf8_lossy(bytes.subrange(i + 30, name_end))] + entries_from(
                bytes,
                num::lesser(entry_end(bytes, i), bytes.len() as int),
                (cap - 1) as nat,
            )
        }
    }
}

/// The bytes from `from` up to `to`.
fn part(bytes: &[u8], from: usize, to: usize) -> (r: Vec<u8>)
    requires
        from <= to <= bytes@.len(),
    ensures
        r@ == bytes@.subrange(from as int, to as int),
{
    let mut r: Vec<u8> = Vec::new();
    let mut i: usize = from;
    while i < to
        invariant
            from <= i <= to <= bytes@.len(),
            r@ == bytes@.subrange(from as int, i as int),
        decreases to - i,
    {
        r.push(bytes[i]);
        assert(r@ =~= bytes@.subrange(from as int, i + 1));
        i += 1;
    }
    r
}

/// Two bytes as a number.
fn read16(bytes: &[u8], at: usize) -> (r: u64)
    requires
        at + 1 < bytes@.len(),
    ensures
        r == le16(bytes@, at as int),
        r <= 65535,
{
    bytes[at] as u64 + 256 * (bytes[at + 1] as u64)
}

/// The names of an archive's entries, read from the local file headers, `cap`
/// at most.
pub fn zip_entry_names(bytes: &[u8], cap: usize) -> (r: Vec<String>)
    ensures
        types::texts(r@) == entries_from(bytes@, 0, cap as nat),
        r@.len() <= cap,
{
    let mut r: Vec<String> = Vec::new();
    let n: usize = bytes.len();
    let mut i: usize = 0;
    assert(types::texts(r@) + entries_from(bytes@, 0, cap as nat) =~= entries_from(
        bytes@,
        0,
        cap as nat,
    ));
    while n > 30 && i < n - 30 && r.len() < cap
        invariant
            n == bytes@.len(),
            i <= n,
            r@.len() <= cap,
            types::texts(r@) + entries_from(bytes@, i as int, (cap - r@.len()) as nat)
                == entries_from(bytes@, 0, cap as nat),
        decreases n - i,
    {
        if !(bytes[i] == 0x50 && bytes[i + 1] == 0x4b && bytes[i + 2] == 0x03 && bytes[i + 3]
            == 0x04) {
            i += 1;
            continue;
        }
        let name_len: u64 = read16(bytes, i + 26);
        let extra_len: u64 = read16(bytes, i + 28);
        let size: u64 = read16(bytes, i + 18) + 65536 * read16(bytes, i + 20);
        if name_len > (n - i - 30) as u64 {
            assert(types::texts(r@) + Seq::<Seq<char>>::empty() =~= types::texts(r@));
            return r;
        }
        let name_end: usize = i + 30 + name_len as usize;
        let raw = part(bytes, i + 30, name_end);
        let name = boundary::lossy_text(&raw);
        let ghost was = types::texts(r@);
        let ghost shown = name@;
        let ghost left = (cap - r@.len()) as nat;
        r.push(name);
        let rest: u64 = extra_len + size;
        let ghost end = entry_end(bytes@, i as int);
        proof {
            assert(end == name_end + rest);
            assert(types::texts(r@) =~= was.push(shown));
            let after = entries_from(bytes@, num::lesser(end, n as int), (left - 1) as nat);
            assert(was + (seq![shown] + after) =~= types::texts(r@) + after);
        }
        if rest >= (n - name_end) as u64 {
            i = n;
        } else {
            i = name_end + rest as usize;
        }
    }
    assert(types::texts(r@) + Seq::<Seq<char>>::empty() =~= types::texts(r@));
    r
}

/// The entries listed are never more than asked for.
pub proof fn law_entries_are_bounded(bytes: Seq<u8>, i: int, cap: nat)
    ensures
        entries_from(bytes, i, cap).len() <= cap,
    decreases bytes.len() - i,
{
    if !(i < 0 || i + 30 >= bytes.len() || cap == 0) {
        if !header_at(bytes, i) {
            law_entries_are_bounded(bytes, i + 1, cap);
        } else {
            law_entries_are_bounded(
                bytes,
                num::lesser(entry_end(bytes, i), bytes.len() as int),
                (cap - 1) as nat,
            );
        }
    }
}

// ---- the pages of a PDF -------------------------------------------------------------------------

/// A page object, and not the list of pages, stands at `i`.
pub open spec fn page_at(s: Seq<char>, i: int) -> bool {
    text::occurs_at(s, "/Type/Page"@, i) && !text::occurs_at(s, "/Type/Pages"@, i)
}

/// How many page objects stand before `n`.
pub open spec fn pages_before(s: Seq<char>, n: int) -> nat
    decreases n,
{
    if n <= 0 {
        0
    } else {
        pages_before(s, n - 1) + (if page_at(s, n - 1) {
            1nat
        } else {
            0nat
        })
    }
}

/// Where the first digit at or after `i` stands, or the end of the text.
pub open spec fn first_digit(s: Seq<char>, i: int) -> int
    decreases s.len() - i,
{
    if i >= s.len() || '0' <= s[i] <= '9' {
        i
    } else {
        first_digit(s, i + 1)
    }
}

/// Where the unbroken run of digits that begins at `i` ends.
pub open spec fn digits_end(s: Seq<char>, i: int) -> int
    decreases s.len() - i,
{
    if i < s.len() && '0' <= s[i] <= '9' {
        digits_end(s, i + 1)
    } else {
        i
    }
}

/// The first unbroken run of digits at or after `from`.
pub open spec fn first_integer(s: Seq<char>, from: int) -> Seq<char> {
    s.subrange(first_digit(s, from), digits_end(s, first_digit(s, from)))
}

/// The page count that the document itself gives: the first integer after
/// `/Count`, and one where there is none, where it is zero or where it is too
/// large for a machine word.
pub open spec fn declared_pages(s: Seq<char>) -> nat {
    match text::found(s, "/Count"@, 0) {
        Some(at) => {
            let n = decimal::number(first_integer(s, at));
            if n == 0 || n > usize::MAX {
                1
            } else {
                n
            }
        },
        None => 1,
    }
}

/// The pages of a PDF read as text: its page objects, or where there are none
/// what it declares.
pub open spec fn pages(s: Seq<char>) -> nat {
    if pages_before(s, s.len() as int) == 0 {
        declared_pages(s)
    } else {
        pages_before(s, s.len() as int)
    }
}

/// The page count that a document gives after `/Count`.
fn declared_pages_of(v: &[char]) -> (r: usize)
    ensures
        r == declared_pages(v@),
{
    let key = text::chars_of("/Count");
    let at: usize = match text::find_from(v, &key, 0) {
        Some(at) => at,
        None => return 1,
    };
    let mut from: usize = at;
    while from < v.len() && !('0' <= v[from] && v[from] <= '9')
        invariant
            at <= from <= v@.len(),
            first_digit(v@, from as int) == first_digit(v@, at as int),
        decreases v@.len() - from,
    {
        from += 1;
    }
    let mut value: usize = 0;
    let mut fits: bool = true;
    let mut i: usize = from;
    assert(v@.subrange(from as int, i as int) =~= Seq::<char>::empty());
    while i < v.len() && '0' <= v[i] && v[i] <= '9'
        invariant
            from <= i <= v@.len(),
            digits_end(v@, i as int) == digits_end(v@, from as int),
            fits ==> value == decimal::number(v@.subrange(from as int, i as int)),
            !fits ==> decimal::number(v@.subrange(from as int, i as int)) > usize::MAX,
        decreases v@.len() - i,
    {
        let d: usize = (v[i] as u32 - '0' as u32) as usize;
        proof {
            let next = v@.subrange(from as int, i + 1);
            assert(next.drop_last() =~= v@.subrange(from as int, i as int));
            assert(decimal::number(next) == 10 * decimal::number(next.drop_last()) + d);
        }
        if fits && value <= (usize::MAX - d) / 10 {
            value = value * 10 + d;
        } else {
            fits = false;
        }
        i += 1;
    }
    if !fits || value < 1 {
        1
    } else {
        value
    }
}

/// The pages of a PDF read as text.
pub fn pdf_pages(content: &str) -> (r: usize)
    ensures
        r == pages(content@),
{
    let v = text::chars_of(content);
    let page = text::chars_of("/Type/Page");
    let list = text::chars_of("/Type/Pages");
    let mut count: usize = 0;
    let mut i: usize = 0;
    while i < v.len()
        invariant
            i <= v@.len(),
            count <= i,
            page@ == "/Type/Page"@,
            list@ == "/Type/Pages"@,
            count == pages_before(v@, i as int),
        decreases v@.len() - i,
    {
        if text::stands_at(&v, &page, i) && !text::stands_at(&v, &list, i) {
            count += 1;
        }
        i += 1;
    }
    if count == 0 {
        declared_pages_of(&v)
    } else {
        count
    }
}

// ---- what a file is ---------------------------------------------------------------------------------

/// What was read of a file: its kind, how far it was read, and an excerpt.
pub struct Sniffed {
    pub kind: Seq<char>,
    pub status: Seq<char>,
    pub excerpt: Seq<char>,
}

/// The bytes begin with `first`.
pub open spec fn begins_with(bytes: Seq<u8>, first: Seq<u8>) -> bool {
    bytes.len() >= first.len() && bytes.take(first.len() as int) == first
}

/// A PDF, by its first bytes or its name.
pub open spec fn is_pdf(bytes: Seq<u8>, extension: Seq<char>) -> bool {
    begins_with(bytes, seq![0x25u8, 0x50u8, 0x44u8, 0x46u8]) || extension == "pdf"@
}

/// An archive, by its first bytes or its name.
pub open spec fn is_archive(bytes: Seq<u8>, extension: Seq<char>) -> bool {
    (bytes.len() > 4 && header_at(bytes, 0)) || extension == "docx"@ || extension == "xlsx"@
        || extension == "pptx"@ || extension == "zip"@ || extension == "odt"@ || extension
        == "ods"@
}

/// What kind of document an archive is.
pub open spec fn document_label(extension: Seq<char>) -> Seq<char> {
    if extension == "xlsx"@ || extension == "ods"@ || extension == "csv"@ {
        "spreadsheet"@
    } else if extension == "pptx"@ || extension == "odp"@ {
        "presentation"@
    } else {
        "document"@
    }
}

/// The first forty of a list, joined.
pub open spec fn listed(names: Seq<Seq<char>>) -> Seq<char> {
    text::joined(names.take(num::lesser(names.len() as int, 40)), ", "@)
}

/// What is read of a file, given its extension in lower case and its bytes
/// read as text.
pub open spec fn sniffed(
    filename: Seq<char>,
    extension: Seq<char>,
    bytes: Seq<u8>,
    as_text: Seq<char>,
) -> Sniffed {
    let strings = strings_in(bytes, 6000);
    let size = decimal::digits(bytes.len());
    if is_pdf(bytes, extension) {
        Sniffed {
            kind: "office"@,
            status: "partial"@,
            excerpt: "[PDF "@ + filename + ": ~"@ + decimal::digits(pages(as_text)) + " page(s), "@
                + size
                + " bytes. Partial extraction — full PDF parsing is staged; key strings below.]\n"@
                + strings,
        }
    } else if is_archive(bytes, extension) {
        let names = entries_from(bytes, 0, 200);
        if names.len() == 0 && text::is_blank(strings) {
            Sniffed {
                kind: "office"@,
                status: "unsupported"@,
                excerpt: "["@ + filename + ": "@ + document_label(extension) + ", "@ + size
                    + " bytes. Could not extract content — try exporting to txt/csv/md.]"@,
            }
        } else {
            Sniffed {
                kind: "office"@,
                status: "partial"@,
                excerpt: "["@ + filename + ": "@ + document_label(extension) + ", "@ + size
                    + " bytes, "@ + decimal::digits(names.len()) + " embedded file(s)"@ + (
                if names.len() >= 200 {
                    " (truncated)"@
                } else {
                    ""@
                }) + ". Partial extraction.]\nEntries: "@ + listed(names) + "\nText strings:\n"@
                    + strings,
            }
        }
    } else if text::trimmed(strings).len() < 32 {
        Sniffed {
            kind: "binary"@,
            status: "unsupported"@,
            excerpt: "["@ + filename + ": "@ + size
                + " bytes, no readable text found. Convert to txt/md/csv first.]"@,
        }
    } else {
        Sniffed {
            kind: "text"@,
            status: "partial"@,
            excerpt: "["@ + filename + ": binary with readable strings, "@ + size
                + " bytes. Partial extraction.]\n"@ + strings,
        }
    }
}

/// Whether the bytes begin like a PDF.
fn begins_pdf(bytes: &[u8]) -> (r: bool)
    ensures
        r == begins_with(bytes@, seq![0x25u8, 0x50u8, 0x44u8, 0x46u8]),
{
    let ghost first = seq![0x25u8, 0x50u8, 0x44u8, 0x46u8];
    if bytes.len() < 4 {
        return false;
    }
    let r = bytes[0] == 0x25 && bytes[1] == 0x50 && bytes[2] == 0x44 && bytes[3] == 0x46;
    proof {
        if r {
            assert(bytes@.take(4) =~= first);
        } else {
            assert(bytes@.take(4)[0] == bytes@[0]);
            assert(bytes@.take(4)[1] == bytes@[1]);
            assert(bytes@.take(4)[2] == bytes@[2]);
            assert(bytes@.take(4)[3] == bytes@[3]);
        }
    }
    r
}

/// What kind of document an archive is.
fn label_of(extension: &str) -> (s: &'static str)
    ensures
        s@ == document_label(extension@),
{
    if text::same(extension, "xlsx") || text::same(extension, "ods") || text::same(
        extension,
        "csv",
    ) {
        "spreadsheet"
    } else if text::same(extension, "pptx") || text::same(extension, "odp") {
        "presentation"
    } else {
        "document"
    }
}

/// What was read of a file: its kind, how far it was read, and an excerpt.
#[derive(Debug, PartialEq, Eq)]
pub struct Sniff {
    pub kind: String,
    pub status: String,
    pub excerpt: String,
}

impl View for Sniff {
    type V = Sniffed;

    open spec fn view(&self) -> Sniffed {
        Sniffed { kind: self.kind@, status: self.status@, excerpt: self.excerpt@ }
    }
}

/// Reads what can be read of a file, given its extension in lower case and its
/// bytes read as text.
pub fn sniff(filename: &str, extension: &str, bytes: &[u8], as_text: &str) -> (r: Sniff)
    ensures
        r@ == sniffed(filename@, extension@, bytes@, as_text@),
{
    let strings = printable_strings(bytes, 6000);
    let size = decimal::decimal(bytes.len() as u64);
    if begins_pdf(bytes) || text::same(extension, "pdf") {
        let mut e = "[PDF ".to_owned();
        e.append(filename);
        e.append(": ~");
        let n = decimal::decimal(pdf_pages(as_text) as u64);
        e.append(&n);
        e.append(" page(s), ");
        e.append(&size);
        e.append(
            " bytes. Partial extraction — full PDF parsing is staged; key strings below.]\n",
        );
        e.append(&strings);
        return Sniff { kind: "office".to_owned(), status: "partial".to_owned(), excerpt: e };
    }
    let archive = (bytes.len() > 4 && bytes[0] == 0x50 && bytes[1] == 0x4b && bytes[2] == 0x03
        && bytes[3] == 0x04) || text::same(extension, "docx") || text::same(extension, "xlsx")
        || text::same(extension, "pptx") || text::same(extension, "zip") || text::same(
        extension,
        "odt",
    ) || text::same(extension, "ods");
    if archive {
        let mut names = zip_entry_names(bytes, 200);
        let ghost all = types::texts(names@);
        let count: usize = names.len();
        let mut e = "[".to_owned();
        e.append(filename);
        e.append(": ");
        e.append(label_of(extension));
        e.append(", ");
        e.append(&size);
        if count == 0 && text::blank(&strings) {
            e.append(" bytes. Could not extract content — try exporting to txt/csv/md.]");
            return Sniff {
                kind: "office".to_owned(),
                status: "unsupported".to_owned(),
                excerpt: e,
            };
        }
        e.append(" bytes, ");
        let n = decimal::decimal(count as u64);
        e.append(&n);
        e.append(" embedded file(s)");
        e.append(
            if count >= 200 {
                " (truncated)"
            } else {
                ""
            },
        );
        e.append(". Partial extraction.]\nEntries: ");
        if names.len() > 40 {
            names.truncate(40);
        }
        assert(types::texts(names@) =~= all.take(num::lesser(all.len() as int, 40)));
        let list = text::join(&names, ", ");
        e.append(&list);
        e.append("\nText strings:\n");
        e.append(&strings);
        return Sniff { kind: "office".to_owned(), status: "partial".to_owned(), excerpt: e };
    }
    let t = text::trim(&strings);
    if text::char_count(&t) < 32 {
        let mut e = "[".to_owned();
        e.append(filename);
        e.append(": ");
        e.append(&size);
        e.append(" bytes, no readable text found. Convert to txt/md/csv first.]");
        return Sniff { kind: "binary".to_owned(), status: "unsupported".to_owned(), excerpt: e };
    }
    let mut e = "[".to_owned();
    e.append(filename);
    e.append(": binary with readable strings, ");
    e.append(&size);
    e.append(" bytes. Partial extraction.]\n");
    e.append(&strings);
    Sniff { kind: "text".to_owned(), status: "partial".to_owned(), excerpt: e }
}

/// Reads what can be read of a file of any kind: reports its structure
/// honestly as partial, and says so where nothing can be read.
pub fn sniff_office(filename: &str, bytes: &[u8]) -> (r: Sniff)
    ensures
        r@ == sniffed(
            filename@,
            text::after_last(boundary::lowercase(filename@), '.'),
            bytes@,
            boundary::utf8_lossy(bytes@),
        ),
{
    let lower = filename.to_lowercase();
    let v = text::chars_of(&lower);
    let from: usize = text::after_last_from(&v, '.');
    let extension = text::string_of(&v, from, v.len());
    assert(extension@ =~= text::after_last(lower@, '.'));
    let as_text = boundary::lossy_text(bytes);
    sniff(filename, &extension, bytes, &as_text)
}

// ---- what is read of a file -------------------------------------------------------------------------------

proof fn lemma_readable_run(bytes: Seq<u8>, n: int, cap: nat)
    requires
        0 <= n <= bytes.len(),
        bytes.len() <= 400,
        forall|i: int| 0 <= i < bytes.len() ==> is_printable(#[trigger] bytes[i]),
    ensures
        ({
            let s = after_bytes(bytes, n, cap);
            &&& s.found.len() == 0 && !s.full
            &&& s.run == Seq::new(n as nat, |i: int| bytes[i] as char)
        }),
    decreases n,
{
    if n > 0 {
        lemma_readable_run(bytes, n - 1, cap);
        let s = after_bytes(bytes, n, cap);
        assert(s.run =~= Seq::new(n as nat, |i: int| bytes[i] as char));
    }
}

/// Readable text of up to 400 characters is found whole, without the white space
/// around it, where it has at least four characters; a shorter one is not.
pub proof fn law_readable_text_is_found(bytes: Seq<u8>, cap: nat)
    requires
        bytes.len() <= 400,
        cap >= 400,
        forall|i: int|
            0 <= i < bytes.len() ==> 0x20 <= #[trigger] bytes[i] < 0x7f || bytes[i] == 0x0a
                || bytes[i] == 0x09,
    ensures
        ({
            let said = text::trimmed(Seq::new(bytes.len(), |i: int| bytes[i] as char));
            &&& said.len() >= 4 ==> strings_in(bytes, cap) == said
            &&& said.len() < 4 ==> strings_in(bytes, cap).len() == 0
        }),
{
    assert forall|i: int| 0 <= i < bytes.len() implies is_printable(#[trigger] bytes[i]) by {}
    lemma_readable_run(bytes, bytes.len() as int, cap);
    let run = Seq::new(bytes.len(), |i: int| bytes[i] as char);
    let s = after_bytes(bytes, bytes.len() as int, cap);
    text::lemma_leading_space_is_space(run);
    text::lemma_trailing_space_is_space(text::trimmed_start(run));
    assert(text::trimmed(run).len() <= run.len());
    assert(s.found + kept_run(s.run) =~= kept_run(run));
}

proof fn lemma_only_readable(bytes: Seq<u8>, n: int, cap: nat)
    requires
        0 <= n <= bytes.len(),
    ensures
        ({
            let s = after_bytes(bytes, n, cap);
            &&& forall|i: int| 0 <= i < s.found.len() ==> is_text_char(#[trigger] s.found[i])
            &&& forall|i: int| 0 <= i < s.run.len() ==> is_text_char(#[trigger] s.run[i])
        }),
    decreases n,
{
    if n > 0 {
        lemma_only_readable(bytes, n - 1, cap);
        let before = after_bytes(bytes, n - 1, cap);
        lemma_trimmed_chars(before.run);
    }
}

proof fn lemma_trimmed_chars(run: Seq<char>)
    requires
        forall|i: int| 0 <= i < run.len() ==> is_text_char(#[trigger] run[i]),
    ensures
        forall|i: int|
            0 <= i < kept_run(run).len() ==> is_text_char(#[trigger] kept_run(run)[i]),
{
    text::law_trimming_takes_white_space_off(run);
    let (a, b) = choose|a: int, b: int|
        0 <= a <= b <= run.len() && text::trimmed(run) == #[trigger] run.subrange(a, b)
            && text::is_blank(run.take(a)) && text::is_blank(run.skip(b));
    assert(text::trimmed(run) == run.subrange(a, b));
    assert forall|i: int| 0 <= i < kept_run(run).len() implies is_text_char(
        #[trigger] kept_run(run)[i],
    ) by {
        assert(kept_run(run)[i] == run[a + i]);
    }
}

/// A character of plain ASCII text.
pub open spec fn is_text_char(c: char) -> bool {
    ' ' <= c <= '~' || c == '\n' || c == '\t'
}

/// What is found in the bytes of a file is plain ASCII text, and never more of it
/// than asked for: no control character comes through.
pub proof fn law_only_readable_text_is_found(bytes: Seq<u8>, cap: nat)
    ensures
        strings_in(bytes, cap).len() <= cap,
        forall|i: int|
            0 <= i < strings_in(bytes, cap).len() ==> ' ' <= #[trigger] strings_in(bytes, cap)[i]
                <= '~' || strings_in(bytes, cap)[i] == '\n' || strings_in(bytes, cap)[i] == '\t',
{
    lemma_only_readable(bytes, bytes.len() as int, cap);
    let s = after_bytes(bytes, bytes.len() as int, cap);
    lemma_trimmed_chars(s.run);
    let all = if s.found.len() < cap {
        s.found + kept_run(s.run)
    } else {
        s.found
    };
    let r = strings_in(bytes, cap);
    assert forall|i: int| 0 <= i < r.len() implies is_text_char(#[trigger] r[i]) by {
        assert(r[i] == all[i]);
        if i >= s.found.len() {
            assert(all[i] == kept_run(s.run)[i - s.found.len()]);
        }
    }
}

/// A number of two or four bytes has its lowest byte first.
pub proof fn law_bytes_are_numbers(bytes: Seq<u8>, at: int)
    ensures
        le16(bytes, at) == bytes[at] + 256 * bytes[at + 1],
        le32(bytes, at) == bytes[at] + 256 * bytes[at + 1] + 65536 * bytes[at + 2] + 16_777_216
            * bytes[at + 3],
        0 <= le16(bytes, at) < 65536,
        0 <= le32(bytes, at) < 4_294_967_296,
{
}

/// An entry of an archive is listed by the name that its header gives, and the
/// next is looked for behind its name, its extra field and its data; bytes that
/// are no header are passed over.
pub proof fn law_each_entry_is_listed(bytes: Seq<u8>, i: int, cap: nat)
    requires
        0 <= i,
        i + 30 < bytes.len(),
        cap > 0,
    ensures
        ({
            let header = bytes[i] == 0x50 && bytes[i + 1] == 0x4b && bytes[i + 2] == 3 && bytes[i
                + 3] == 4;
            let name = bytes[i + 26] + 256 * bytes[i + 27];
            let extra = bytes[i + 28] + 256 * bytes[i + 29];
            let data = le32(bytes, i + 18);
            let end = i + 30 + name + extra + data;
            &&& header && i + 30 + name <= bytes.len() ==> entries_from(bytes, i, cap)[0]
                == boundary::utf8_lossy(bytes.subrange(i + 30, i + 30 + name))
            &&& header && end <= bytes.len() ==> entries_from(bytes, i, cap).skip(1)
                == entries_from(bytes, end, (cap - 1) as nat)
            &&& header && i + 30 + name > bytes.len() ==> entries_from(bytes, i, cap).len() == 0
            &&& !header ==> entries_from(bytes, i, cap) == entries_from(bytes, i + 1, cap)
        }),
{
    let name_end = i + 30 + le16(bytes, i + 26);
    if header_at(bytes, i) && name_end <= bytes.len() {
        let rest = entries_from(
            bytes,
            num::lesser(entry_end(bytes, i), bytes.len() as int),
            (cap - 1) as nat,
        );
        assert(entries_from(bytes, i, cap).skip(1) =~= rest);
    }
}

proof fn lemma_pages_before(s: Seq<char>, n: int, m: int)
    requires
        n <= m,
    ensures
        pages_before(s, n) <= pages_before(s, m),
    decreases m - n,
{
    if n < m {
        lemma_pages_before(s, n, m - 1);
    }
}

/// Every page object of a document counts for one; the list of pages is none,
/// though it begins like one. A document without page objects has the pages that
/// it declares, and any document has at least one.
pub proof fn law_each_page_counts_once(s: Seq<char>, i: int)
    requires
        0 <= i < s.len(),
    ensures
        ({
            let here = text::occurs_at(s, "/Type/Page"@, i);
            let list = text::occurs_at(s, "/Type/Pages"@, i);
            &&& here && !list ==> pages_before(s, i + 1) == pages_before(s, i) + 1
            &&& !here || list ==> pages_before(s, i + 1) == pages_before(s, i)
            &&& here && !list ==> pages(s) == pages_before(s, s.len() as int)
        }),
        pages(s) >= 1,
{
    lemma_pages_before(s, i + 1, s.len() as int);
    lemma_pages_before(s, 0, i);
}

proof fn lemma_first_digit(s: Seq<char>, i: int)
    requires
        0 <= i <= s.len(),
    ensures
        i <= first_digit(s, i) <= s.len(),
        forall|k: int| i <= k < first_digit(s, i) ==> !('0' <= #[trigger] s[k] <= '9'),
        first_digit(s, i) < s.len() ==> '0' <= s[first_digit(s, i)] <= '9',
    decreases s.len() - i,
{
    if i < s.len() && !('0' <= s[i] <= '9') {
        lemma_first_digit(s, i + 1);
    }
}

proof fn lemma_digits_end(s: Seq<char>, i: int)
    requires
        0 <= i <= s.len(),
    ensures
        i <= digits_end(s, i) <= s.len(),
        forall|k: int| i <= k < digits_end(s, i) ==> '0' <= #[trigger] s[k] <= '9',
        digits_end(s, i) < s.len() ==> !('0' <= s[digits_end(s, i)] <= '9'),
    decreases s.len() - i,
{
    if i < s.len() && '0' <= s[i] <= '9' {
        lemma_digits_end(s, i + 1);
    }
}

/// The number that is read is the first there is: the whole run of digits, with
/// none before it.
pub proof fn law_the_first_number_is_read(a: Seq<char>, n: nat, b: Seq<char>)
    requires
        forall|k: int| 0 <= k < a.len() ==> !('0' <= #[trigger] a[k] <= '9'),
        b.len() > 0 ==> !('0' <= b[0] <= '9'),
    ensures
        first_integer(a + decimal::digits(n) + b, 0) == decimal::digits(n),
        decimal::number(first_integer(a + decimal::digits(n) + b, 0)) == n,
{
    decimal::law_digits_name_the_number(n);
    let d = decimal::digits(n);
    let s = a + d + b;
    let from = a.len() as int;
    let to = from + d.len();
    lemma_first_digit(s, 0);
    assert forall|k: int| 0 <= k < from implies !('0' <= #[trigger] s[k] <= '9') by {
        assert(s[k] == a[k]);
    }
    assert forall|k: int| from <= k < to implies '0' <= #[trigger] s[k] <= '9' by {
        assert(s[k] == d[k - from]);
    }
    assert('0' <= s[from] <= '9');
    assert(first_digit(s, 0) == from);
    lemma_digits_end(s, from);
    if to < s.len() {
        assert(s[to] == b[0]);
    }
    assert(digits_end(s, from) == to);
    assert(s.subrange(from, to) =~= d);
}

/// What is read of a file is always told as partial, or as nothing at all; it
/// names the file and its size, and ends with the text that was found.
pub proof fn law_a_file_is_read_honestly(
    filename: Seq<char>,
    extension: Seq<char>,
    bytes: Seq<u8>,
    as_text: Seq<char>,
)
    ensures
        ({
            let r = sniffed(filename, extension, bytes, as_text);
            let strings = strings_in(bytes, 6000);
            &&& r.status == "partial"@ || r.status == "unsupported"@
            &&& text::holds(r.excerpt, filename)
            &&& text::holds(r.excerpt, decimal::digits(bytes.len()))
            &&& r.status == "partial"@ ==> strings.is_suffix_of(r.excerpt)
            &&& is_pdf(bytes, extension) ==> r.kind == "office"@ && r.status == "partial"@
            &&& !is_pdf(bytes, extension) && is_archive(bytes, extension) ==> r.kind == "office"@
            &&& !is_pdf(bytes, extension) && !is_archive(bytes, extension) ==> {
                &&& text::trimmed(strings).len() >= 32 ==> r.kind == "text"@ && r.status
                    == "partial"@
                &&& text::trimmed(strings).len() < 32 ==> r.kind == "binary"@ && r.status
                    == "unsupported"@
            }
        }),
{
    let r = sniffed(filename, extension, bytes, as_text);
    let strings = strings_in(bytes, 6000);
    let size = decimal::digits(bytes.len());
    reveal_strlit("partial");
    reveal_strlit("unsupported");
    assert("partial"@.len() == 7 && "unsupported"@.len() == 11);
    if is_pdf(bytes, extension) {
        let pages = decimal::digits(pages(as_text));
        let rest = " bytes. Partial extraction — full PDF parsing is staged; key strings below.]\n"@;
        lemma_read_parts(
            "[PDF "@,
            filename,
            ": ~"@ + pages + " page(s), "@,
            size,
            rest,
            strings,
        );
        assert(r.excerpt =~= "[PDF "@ + filename + (": ~"@ + pages + " page(s), "@) + size + rest
            + strings);
    } else if is_archive(bytes, extension) {
        let names = entries_from(bytes, 0, 200);
        let label = document_label(extension);
        if names.len() == 0 && text::is_blank(strings) {
            let rest = " bytes. Could not extract content — try exporting to txt/csv/md.]"@;
            lemma_read_parts("["@, filename, ": "@ + label + ", "@, size, rest, Seq::empty());
            assert(r.excerpt =~= "["@ + filename + (": "@ + label + ", "@) + size + rest
                + Seq::<char>::empty());
        } else {
            let cut = if names.len() >= 200 {
                " (truncated)"@
            } else {
                ""@
            };
            let rest = " bytes, "@ + decimal::digits(names.len()) + " embedded file(s)"@ + cut
                + ". Partial extraction.]\nEntries: "@ + listed(names) + "\nText strings:\n"@;
            lemma_read_parts("["@, filename, ": "@ + label + ", "@, size, rest, strings);
            assert(r.excerpt =~= "["@ + filename + (": "@ + label + ", "@) + size + rest + strings);
        }
    } else if text::trimmed(strings).len() < 32 {
        let rest = " bytes, no readable text found. Convert to txt/md/csv first.]"@;
        lemma_read_parts("["@, filename, ": "@, size, rest, Seq::empty());
        assert(r.excerpt =~= "["@ + filename + ": "@ + size + rest + Seq::<char>::empty());
    } else {
        let rest = " bytes. Partial extraction.]\n"@;
        lemma_read_parts(
            "["@,
            filename,
            ": binary with readable strings, "@,
            size,
            rest,
            strings,
        );
    }
}

proof fn lemma_read_parts(
    a: Seq<char>,
    name: Seq<char>,
    b: Seq<char>,
    size: Seq<char>,
    c: Seq<char>,
    end: Seq<char>,
)
    ensures
        ({
            let s = a + name + b + size + c + end;
            text::holds(s, name) && text::holds(s, size) && end.is_suffix_of(s)
        }),
{
    let s = a + name + b + size + c + end;
    let i = a.len() as int;
    assert(s.subrange(i, i + name.len()) =~= name);
    assert(text::occurs_at(s, name, i));
    let j = (a + name + b).len() as int;
    assert(s.subrange(j, j + size.len()) =~= size);
    assert(text::occurs_at(s, size, j));
    assert(end =~= s.subrange(s.len() - end.len(), s.len() as int));
}

/// A file is a PDF or an archive by its first bytes, whatever it is called, or by
/// its name.
pub proof fn law_what_a_file_is_taken_for(bytes: Seq<u8>, extension: Seq<char>)
    ensures
        bytes.len() >= 4 && bytes[0] == 0x25 && bytes[1] == 0x50 && bytes[2] == 0x44 && bytes[3]
            == 0x46 ==> is_pdf(bytes, extension),
        extension == "pdf"@ ==> is_pdf(bytes, extension),
        bytes.len() > 4 && bytes[0] == 0x50 && bytes[1] == 0x4b && bytes[2] == 3 && bytes[3] == 4
            ==> is_archive(bytes, extension),
        extension == "docx"@ || extension == "xlsx"@ || extension == "pptx"@ || extension == "zip"@
            || extension == "odt"@ || extension == "ods"@ ==> is_archive(bytes, extension),
        bytes.len() == 0 && extension.len() == 0 ==> !is_pdf(bytes, extension) && !is_archive(
            bytes,
            extension,
        ),
        document_label("xlsx"@) == "spreadsheet"@ && document_label("pptx"@) == "presentation"@
            && document_label("docx"@) == "document"@,
{
    let pdf = seq![0x25u8, 0x50u8, 0x44u8, 0x46u8];
    if bytes.len() >= 4 && bytes[0] == 0x25 && bytes[1] == 0x50 && bytes[2] == 0x44 && bytes[3]
        == 0x46 {
        assert(bytes.take(4) =~= pdf);
    }
    reveal_strlit("pdf");
    reveal_strlit("docx");
    reveal_strlit("xlsx");
    reveal_strlit("pptx");
    reveal_strlit("zip");
    reveal_strlit("odt");
    reveal_strlit("ods");
    reveal_strlit("odp");
    reveal_strlit("csv");
    assert("docx"@[0] == 'd' && "xlsx"@[0] == 'x' && "pptx"@[0] == 'p');
    assert("docx"@.len() == 4 && "xlsx"@.len() == 4 && "pptx"@.len() == 4 && "ods"@.len() == 3
        && "odp"@.len() == 3 && "csv"@.len() == 3 && "pdf"@.len() == 3 && "zip"@.len() == 3
        && "odt"@.len() == 3);
}

} // verus!
