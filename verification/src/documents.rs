//! Files that a reply is asked to be: what the model is told, what of its reply
//! is the file, and what the file is called.
use vstd::prelude::*;

use crate::boundary;
use crate::text;
use crate::types;

verus! {

/// Document kinds a model without tool support can still produce: it writes
/// the file's content as its reply, which is saved as the file.
pub open spec fn is_plain_kind(kind: Seq<char>) -> bool {
    kind == "txt"@ || kind == "md"@ || kind == "csv"@ || kind == "html"@ || kind == "json"@
}

/// Whether a reply can be the file as it stands.
pub fn plain_kind(kind: &str) -> (r: bool)
    ensures
        r == is_plain_kind(kind@),
{
    text::same(kind, "txt") || text::same(kind, "md") || text::same(kind, "csv") || text::same(
        kind,
        "html",
    ) || text::same(kind, "json")
}

/// What a model is told whose reply is the file.
pub open spec fn plain_note(kind: Seq<char>) -> Seq<char> {
    "\n\n[The user asked for a ."@ + kind
        + " file. Reply with only the complete content of that file: no introduction, no explanation and no code fence around it. The app saves your reply as the file.]"@
}

/// What a model is told whose reply is the file.
pub fn plain_document_note(kind: &str) -> (s: String)
    ensures
        s@ == plain_note(kind@),
{
    let mut s = "\n\n[The user asked for a .".to_owned();
    s.append(kind);
    s.append(
        " file. Reply with only the complete content of that file: no introduction, no explanation and no code fence around it. The app saves your reply as the file.]",
    );
    s
}

/// What the user is told of a file that the model cannot produce.
pub open spec fn structured_notice(kind: Seq<char>) -> Seq<char> {
    "This model can't create ."@ + kind
        + " files: its chat template has no tool support, which that file type needs. It can still create plain-text documents (.txt, .md, .csv, .html or .json); ask for one of those, or load a model that supports tools.\n\n"@
}

/// What the user is told of a file that the model cannot produce.
pub fn structured_document_notice(kind: &str) -> (s: String)
    ensures
        s@ == structured_notice(kind@),
{
    let mut s = "This model can't create .".to_owned();
    s.append(kind);
    s.append(
        " files: its chat template has no tool support, which that file type needs. It can still create plain-text documents (.txt, .md, .csv, .html or .json); ask for one of those, or load a model that supports tools.\n\n",
    );
    s
}

/// How to call the document tool.
pub const DOCUMENT_TOOL_NOTE: &'static str =
    "\n\n[This request asks for a file. Produce it with exactly one tool call and wait for its result, in this complete format with the fence markers on separate lines:\n\
    ```tool\n{\"name\":\"create_document\",\"args\":{\"filename\":\"report.xlsx\",\"sheets\":[{\"name\":\"Data\",\"rows\":[[\"Item\",\"Amount\"],[\"Example\",1]]}]}}\n```\n\
    Spec by file type: xlsx = sheets[{name,rows}]; docx and pdf = title + paragraphs[] (plain paragraphs); pptx = title + slides[{title,bullets[]}]; md/txt = text; csv = rows; html = title + html; json = data. \
    Put the complete content in the spec, never placeholders. The file appears in the conversation's Artifacts panel; after the result, tell the user it is ready and summarise what it contains.]";

/// The document tool, offered only on a request that asks for a document: a
/// model shown a tool it has no use for reaches for it anyway.
pub fn document_tool_note() -> (s: &'static str)
    ensures
        s@ == DOCUMENT_TOOL_NOTE@,
{
    DOCUMENT_TOOL_NOTE
}

// ---- the reply as a file --------------------------------------------------------------

/// What stands between an opening fence line and a closing fence at the end,
/// if `s` is such a block.
pub open spec fn inside_fence(s: Seq<char>) -> Option<Seq<char>> {
    if !text::begins(s, "```"@) {
        None
    } else {
        let rest = s.skip(3);
        match text::found(rest, "\n"@, 0) {
            None => None,
            Some(line) => {
                let block = text::trimmed_end(rest.skip(line + 1));
                if text::ends(block, "```"@) {
                    Some(block.take(block.len() - 3))
                } else {
                    None
                }
            },
        }
    }
}

/// The content of a file from a reply: the inside of one surrounding code
/// fence where the model added one, else the reply, trimmed.
pub open spec fn document_body(reply: Seq<char>) -> Seq<char> {
    match inside_fence(text::trimmed(reply)) {
        Some(inner) => text::trimmed_end(inner),
        None => text::trimmed(reply),
    }
}

/// What stands inside a surrounding code fence.
fn unfenced(s: &str) -> (r: Option<String>)
    ensures
        match inside_fence(s@) {
            Some(inner) => r is Some && r->0@ == inner,
            None => r is None,
        },
{
    let v = text::chars_of(s);
    let fence = text::chars_of("```");
    let line_end = text::chars_of("\n");
    proof {
        reveal_strlit("```");
        reveal_strlit("\n");
        assert(fence@.len() == 3);
        assert(line_end@.len() == 1);
    }
    if !text::stands_at(&v, &fence, 0) {
        return None;
    }
    let rest = text::string_of(&v, 3, v.len());
    assert(rest@ =~= s@.skip(3));
    let chars = text::chars_of(&rest);
    let n: usize = chars.len();
    let line: usize = match text::find_from(&chars, &line_end, 0) {
        Some(line) => line,
        None => return None,
    };
    let below = text::string_of(&chars, line + 1, n);
    assert(below@ =~= rest@.skip(line + 1));
    let block = text::trim_end(&below);
    if !text::ends_with(&block, "```") {
        return None;
    }
    let b = text::chars_of(&block);
    let inner = text::string_of(&b, 0, b.len() - 3);
    assert(inner@ =~= block@.take(block@.len() - 3));
    Some(inner)
}

/// The content of a file from a reply.
pub fn plain_document_body(reply: &str) -> (r: String)
    ensures
        r@ == document_body(reply@),
{
    let whole = text::trim(reply);
    match unfenced(&whole) {
        Some(inner) => text::trim_end(&inner),
        None => whole,
    }
}

// ---- the name of the file ---------------------------------------------------------------

/// Words of a request that say nothing of the file.
pub open spec fn is_filler(word: Seq<char>) -> bool {
    word == "write"@ || word == "create"@ || word == "make"@ || word == "generate"@ || word
        == "give"@ || word == "please"@ || word == "file"@ || word == "document"@ || word == "the"@
        || word == "and"@ || word == "for"@ || word == "with"@ || word == "about"@ || word
        == "into"@ || word == "that"@ || word == "this"@ || word == "markdown"@ || word == "text"@
        || word == "csv"@ || word == "html"@ || word == "json"@ || word == "txt"@ || word == "can"@
        || word == "you"@ || word == "new"@
}

/// Whether a word of a request says nothing of the file.
fn filler(word: &str) -> (r: bool)
    ensures
        r == is_filler(word@),
{
    text::same(word, "write") || text::same(word, "create") || text::same(word, "make")
        || text::same(word, "generate") || text::same(word, "give") || text::same(word, "please")
        || text::same(word, "file") || text::same(word, "document") || text::same(word, "the")
        || text::same(word, "and") || text::same(word, "for") || text::same(word, "with")
        || text::same(word, "about") || text::same(word, "into") || text::same(word, "that")
        || text::same(word, "this") || text::same(word, "markdown") || text::same(word, "text")
        || text::same(word, "csv") || text::same(word, "html") || text::same(word, "json")
        || text::same(word, "txt") || text::same(word, "can") || text::same(word, "you")
        || text::same(word, "new")
}

/// The characters that stand between words, given which are alphanumeric.
pub open spec fn between_words(s: Seq<char>) -> Seq<bool> {
    s.map_values(|c: char| !boundary::alphanumeric(c))
}

/// The first four of the first `n` words that are longer than two bytes and
/// no filler.
pub open spec fn name_words(words: Seq<Seq<char>>, n: int) -> Seq<Seq<char>>
    decreases n,
{
    if n <= 0 {
        Seq::empty()
    } else {
        let before = name_words(words, n - 1);
        let word = words[n - 1];
        if before.len() < 4 && text::byte_len(word) > 2 && !is_filler(word) {
            before.push(word)
        } else {
            before
        }
    }
}

/// The words of a text in lower case.
pub open spec fn words_of(message: Seq<char>) -> Seq<Seq<char>> {
    text::pieces(message, between_words(message)).map_values(
        |w: Seq<char>| boundary::lowercase(w),
    )
}

/// The file name that words give.
pub open spec fn file_name(words: Seq<Seq<char>>, kind: Seq<char>) -> Seq<char> {
    let kept = name_words(words, words.len() as int);
    (if kept.len() == 0 {
        "document"@
    } else {
        text::joined(kept, "-"@)
    }) + "."@ + kind
}

/// The file name that lower-case words give: the first four that say
/// something, with hyphens between them.
pub fn filename_from_words(words: &[String], kind: &str) -> (r: String)
    ensures
        r@ == file_name(types::texts(words@), kind@),
{
    let mut kept: Vec<String> = Vec::new();
    let mut i: usize = 0;
    assert(types::texts(kept@) =~= Seq::<Seq<char>>::empty());
    while i < words.len()
        invariant
            i <= words@.len(),
            types::texts(kept@) == name_words(types::texts(words@), i as int),
        decreases words@.len() - i,
    {
        let word = &words[i];
        if kept.len() < 4 && text::bytes_in(word) > 2 && !filler(word) {
            let ghost was = kept@;
            kept.push(word.clone());
            assert(types::texts(kept@) =~= types::texts(was).push(word@));
        }
        i += 1;
    }
    let mut r = if kept.len() == 0 {
        "document".to_owned()
    } else {
        text::join(&kept, "-")
    };
    r.append(".");
    r.append(kind);
    r
}

/// A file name from the words of the request, without the request's verbs.
pub fn plain_document_filename(message: &str, kind: &str) -> (r: String)
    ensures
        r@ == file_name(words_of(message@), kind@),
{
    let v = text::chars_of(message);
    let mut marks: Vec<bool> = Vec::new();
    let mut i: usize = 0;
    while i < v.len()
        invariant
            i <= v@.len(),
            marks@ == between_words(v@).take(i as int),
        decreases v@.len() - i,
    {
        let ghost was = marks@;
        let mark = !v[i].is_alphanumeric();
        marks.push(mark);
        assert(marks@ =~= between_words(v@).take(i + 1));
        i += 1;
    }
    assert(marks@ =~= between_words(v@));
    let parts = text::split_at_marks(&v, &marks);
    let mut words: Vec<String> = Vec::new();
    let mut k: usize = 0;
    while k < parts.len()
        invariant
            k <= parts@.len(),
            words@.len() == k,
            forall|j: int|
                0 <= j < k ==> (#[trigger] words@[j])@ == boundary::lowercase(parts@[j]@),
        decreases parts@.len() - k,
    {
        let word = parts[k].as_str().to_lowercase();
        words.push(word);
        k += 1;
    }
    assert(types::texts(words@) =~= words_of(message@));
    filename_from_words(&words, kind)
}

// ---- how a requested file is produced -------------------------------------------------------

/// How a request for a file is met.
#[derive(Debug, PartialEq, Eq)]
pub enum DocumentPlan {
    /// No file was asked for.
    Nothing,
    /// The model calls the document tool.
    Tool,
    /// The reply is the file.
    Plain(String),
    /// The model cannot produce this kind.
    Declined(String),
}

/// `p` is the plan for the kind of file asked for.
pub open spec fn planned(requested: Option<String>, no_tools: bool, p: DocumentPlan) -> bool {
    match (requested, p) {
        (None, DocumentPlan::Nothing) => true,
        (Some(kind), DocumentPlan::Tool) => !no_tools,
        (Some(kind), DocumentPlan::Plain(k)) => no_tools && is_plain_kind(kind@) && k == kind,
        (Some(kind), DocumentPlan::Declined(k)) => no_tools && !is_plain_kind(kind@) && k == kind,
        _ => false,
    }
}

/// A model without tools is never taught one: it writes plain text as its reply
/// and other kinds are declined, by their name. One with tools makes any kind
/// with them, and where no file was asked for nothing is planned.
pub proof fn law_no_tool_without_tools(requested: Option<String>, no_tools: bool, p: DocumentPlan)
    requires
        planned(requested, no_tools, p),
    ensures
        p is Nothing <==> requested is None,
        p is Tool <==> requested is Some && !no_tools,
        requested matches Some(kind) && no_tools ==> {
            let plain = requested->0@ == "txt"@ || requested->0@ == "md"@ || requested->0@ == "csv"@
                || requested->0@ == "html"@ || requested->0@ == "json"@;
            &&& plain ==> p == DocumentPlan::Plain(requested->0)
            &&& !plain ==> p == DocumentPlan::Declined(requested->0)
        },
{
}

/// The plan for the kind of file asked for: a model whose template has no
/// tool support is never taught the tool.
pub fn document_plan(requested: Option<String>, no_tools: bool) -> (p: DocumentPlan)
    ensures
        planned(requested, no_tools, p),
{
    match requested {
        None => DocumentPlan::Nothing,
        Some(kind) => if !no_tools {
            DocumentPlan::Tool
        } else if plain_kind(&kind) {
            DocumentPlan::Plain(kind)
        } else {
            DocumentPlan::Declined(kind)
        },
    }
}

/// The note that a plan puts on the latest user turn.
pub open spec fn plan_note(p: DocumentPlan) -> Seq<char> {
    match p {
        DocumentPlan::Nothing => Seq::empty(),
        DocumentPlan::Tool => DOCUMENT_TOOL_NOTE@,
        DocumentPlan::Plain(kind) => plain_note(kind@),
        DocumentPlan::Declined(kind) => "\n\n[This model cannot create ."@ + kind@
            + " files and the user has already been told. Answer the rest of the request in plain text; do not paste a file.]"@,
    }
}

/// The note that a plan puts on the latest user turn.
pub fn plan_note_of(p: &DocumentPlan) -> (s: String)
    ensures
        s@ == plan_note(*p),
{
    match p {
        DocumentPlan::Nothing => String::new(),
        DocumentPlan::Tool => document_tool_note().to_owned(),
        DocumentPlan::Plain(kind) => plain_document_note(kind),
        DocumentPlan::Declined(kind) => {
            let mut s = "\n\n[This model cannot create .".to_owned();
            s.append(kind);
            s.append(
                " files and the user has already been told. Answer the rest of the request in plain text; do not paste a file.]",
            );
            s
        },
    }
}

// ---- what the file is -----------------------------------------------------------------------

/// The note on a file names its kind, and only a request for a file has one.
pub proof fn law_the_note_names_the_kind(kind: String)
    ensures
        plan_note(DocumentPlan::Nothing) == Seq::<char>::empty(),
        plan_note(DocumentPlan::Tool) == DOCUMENT_TOOL_NOTE@,
        ("\n\n[The user asked for a ."@ + kind@ + " file."@).is_prefix_of(
            plan_note(DocumentPlan::Plain(kind)),
        ),
        ("\n\n[This model cannot create ."@ + kind@ + " files"@).is_prefix_of(
            plan_note(DocumentPlan::Declined(kind)),
        ),
        ("This model can't create ."@ + kind@ + " files"@).is_prefix_of(structured_notice(kind@)),
{
    reveal_strlit(" file.");
    reveal_strlit(" files");
    reveal_strlit(
        " file. Reply with only the complete content of that file: no introduction, no explanation and no code fence around it. The app saves your reply as the file.]",
    );
    reveal_strlit(
        " files and the user has already been told. Answer the rest of the request in plain text; do not paste a file.]",
    );
    reveal_strlit(
        " files: its chat template has no tool support, which that file type needs. It can still create plain-text documents (.txt, .md, .csv, .html or .json); ask for one of those, or load a model that supports tools.\n\n",
    );
    let a = plan_note(DocumentPlan::Plain(kind));
    let x = "\n\n[The user asked for a ."@ + kind@ + " file."@;
    assert(x =~= a.subrange(0, x.len() as int));
    let b = plan_note(DocumentPlan::Declined(kind));
    let y = "\n\n[This model cannot create ."@ + kind@ + " files"@;
    assert(y =~= b.subrange(0, y.len() as int));
    let c = structured_notice(kind@);
    let z = "This model can't create ."@ + kind@ + " files"@;
    assert(z =~= c.subrange(0, z.len() as int));
}

/// The file is what the model wrote: the whole reply without the white space
/// around it, or what stands in the code fence where the reply is one fence,
/// whatever language the fence names.
pub proof fn law_the_file_is_what_was_written(
    reply: Seq<char>,
    language: Seq<char>,
    inner: Seq<char>,
)
    requires
        !language.contains('\n'),
    ensures
        !"```"@.is_prefix_of(text::trimmed(reply)) ==> document_body(reply) == text::trimmed(reply),
        document_body("```"@ + language + seq!['\n'] + inner + "```"@) == text::trimmed_end(inner),
{
    reveal_strlit("```");
    reveal_strlit("\n");
    let core = text::trimmed(reply);
    if text::begins(core, "```"@) {
        assert("```"@ =~= core.subrange(0, 3));
    }
    let fenced = "```"@ + language + seq!['\n'] + inner + "```"@;
    let n = fenced.len() as int;
    assert(!text::is_space('`'));
    text::lemma_leading_space(fenced, 0);
    assert(fenced.skip(0) =~= fenced);
    assert(fenced[n - 1] == '`');
    text::lemma_trailing_space(fenced, 0);
    assert(fenced.take(n) =~= fenced);
    assert(text::trimmed(fenced) == fenced);
    assert(text::begins(fenced, "```"@)) by {
        assert(fenced.subrange(0, 3) =~= "```"@);
    }
    let rest = fenced.skip(3);
    let line = language.len() as int;
    assert(rest =~= language + seq!['\n'] + (inner + "```"@));
    text::lemma_found(rest, "\n"@, 0);
    assert(text::occurs_at(rest, "\n"@, line)) by {
        assert(rest.subrange(line, line + 1) =~= "\n"@);
    }
    assert forall|k: int| 0 <= k < line implies !#[trigger] text::occurs_at(rest, "\n"@, k) by {
        if text::occurs_at(rest, "\n"@, k) {
            assert(rest.subrange(k, k + 1)[0] == language[k]);
            assert(language.contains(language[k]));
        }
    }
    assert(text::found(rest, "\n"@, 0) == Some(line));
    let block = inner + "```"@;
    assert(rest.skip(line + 1) =~= block);
    assert(block[block.len() - 1] == '`');
    text::lemma_trailing_space(block, 0);
    assert(block.take(block.len() as int) =~= block);
    assert(text::trimmed_end(block) == block);
    assert(text::ends(block, "```"@)) by {
        assert(block.subrange(block.len() - 3, block.len() as int) =~= "```"@);
    }
    assert(block.take(block.len() - 3) =~= inner);
}

proof fn lemma_name_words(words: Seq<Seq<char>>, n: int)
    requires
        0 <= n <= words.len(),
    ensures
        name_words(words, n).len() <= 4,
        forall|k: int|
            0 <= k < name_words(words, n).len() ==> words.contains(
                #[trigger] name_words(words, n)[k],
            ) && text::byte_len(name_words(words, n)[k]) > 2 && !is_filler(
                name_words(words, n)[k],
            ),
        name_words(words, n).len() < 4 ==> forall|i: int|
            0 <= i < n && text::byte_len(#[trigger] words[i]) > 2 && !is_filler(words[i])
                ==> name_words(words, n).contains(words[i]),
    decreases n,
{
    if n > 0 {
        lemma_name_words(words, n - 1);
        let before = name_words(words, n - 1);
        let now = name_words(words, n);
        if now.len() < 4 {
            assert forall|i: int|
                0 <= i < n && text::byte_len(#[trigger] words[i]) > 2 && !is_filler(
                    words[i],
                ) implies now.contains(words[i]) by {
                if i < n - 1 {
                    let k = choose|k: int| 0 <= k < before.len() && before[k] == words[i];
                    assert(now[k] == words[i]);
                } else {
                    assert(now[now.len() - 1] == words[i]);
                }
            }
        }
    }
}

/// A file is named by its kind and by up to four words of the request that say
/// something, or simply a document where none does: no word of at most two
/// bytes and no filler is in its name, and one that says something is left out
/// only behind four others.
pub proof fn law_a_file_is_named_by_the_request(words: Seq<Seq<char>>, kind: Seq<char>)
    ensures
        ({
            let kept = name_words(words, words.len() as int);
            &&& ("."@ + kind).is_suffix_of(file_name(words, kind))
            &&& kept.len() == 0 ==> file_name(words, kind) == "document"@ + "."@ + kind
            &&& kept.len() > 0 ==> file_name(words, kind) == text::joined(kept, "-"@) + "."@ + kind
            &&& kept.len() <= 4
            &&& forall|k: int|
                0 <= k < kept.len() ==> words.contains(#[trigger] kept[k]) && text::byte_len(
                    kept[k],
                ) > 2 && !is_filler(kept[k])
            &&& forall|i: int|
                0 <= i < words.len() && text::byte_len(#[trigger] words[i]) > 2 && !is_filler(
                    words[i],
                ) ==> kept.len() == 4 || kept.contains(words[i])
        }),
{
    lemma_name_words(words, words.len() as int);
    let name = file_name(words, kind);
    let end = "."@ + kind;
    assert(end =~= name.subrange(name.len() - end.len(), name.len() as int));
}

/// The words of a request are its stretches of letters and digits, in lower case
/// and in their order: a character that is neither parts them.
pub proof fn law_letters_and_digits_make_words(a: Seq<char>, c: char, b: Seq<char>)
    requires
        forall|i: int| 0 <= i < a.len() ==> boundary::alphanumeric(#[trigger] a[i]),
        forall|i: int| 0 <= i < b.len() ==> boundary::alphanumeric(#[trigger] b[i]),
        !boundary::alphanumeric(c),
    ensures
        words_of(a) == seq![boundary::lowercase(a)],
        words_of(a + seq![c] + b) == seq![boundary::lowercase(a), boundary::lowercase(b)],
{
    let s = a + seq![c] + b;
    let marks = between_words(s);
    assert forall|i: int| 0 <= i < a.len() implies !(#[trigger] marks[i]) by {
        assert(s[i] == a[i]);
    }
    assert forall|i: int| a.len() < i <= a.len() + b.len() implies !(#[trigger] marks[i]) by {
        assert(s[i] == b[i - a.len() - 1]);
    }
    assert(s[a.len() as int] == c);
    text::lemma_two_pieces(a, c, b, marks);
    text::lemma_one_piece(a, between_words(a));
    assert(words_of(a) =~= seq![boundary::lowercase(a)]);
    assert(words_of(s) =~= seq![boundary::lowercase(a), boundary::lowercase(b)]);
}

} // verus!
