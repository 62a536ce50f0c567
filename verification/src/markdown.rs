use vstd::prelude::*;
use vstd::string::StrSliceExecFns;

verus! {

/// The longest HTML text, in characters, that is handed to the sanitizer. The sanitizer
/// keeps text in buffers that hold less than four gibibytes and double as they grow, so
/// that none can grow past two; a character takes at most four bytes.
pub const MAX_SANITIZED_CHARS: usize = 0x2000_0000;

/// The HTML fragment that the markdown parser emits for `markdown` with the given syntax
/// extensions switched on or off.
pub uninterp spec fn rendered_html(
    markdown: Seq<char>,
    tables: bool,
    footnotes: bool,
    strikethrough: bool,
    task_lists: bool,
    smart_punctuation: bool,
) -> Seq<char>;

/// What the sanitizer leaves of `html` when, beyond its default allow-list, it admits
/// `generic_attributes` on every tag, the tags `tags`, the attributes `tag_attributes` on
/// `tag`, and sets the `rel` attribute of every link to `link_rel`.
pub uninterp spec fn sanitized_html(
    html: Seq<char>,
    generic_attributes: Seq<Seq<char>>,
    tags: Seq<Seq<char>>,
    tag: Seq<char>,
    tag_attributes: Seq<Seq<char>>,
    link_rel: Seq<char>,
) -> Seq<char>;

/// The texts that a list of string slices holds, in order.
pub open spec fn texts(names: Seq<&'static str>) -> Seq<Seq<char>> {
    Seq::new(names.len(), |i: int| names[i]@)
}

/// Attributes admitted on every allowed tag, beyond the sanitizer's defaults.
pub open spec fn extra_generic_attributes() -> Seq<Seq<char>> {
    seq!["style"@, "class"@]
}

/// Tags admitted beyond the sanitizer's defaults: the checkbox of a task-list item.
pub open spec fn extra_tags() -> Seq<Seq<char>> {
    seq!["input"@]
}

/// Attributes admitted on the checkbox tag.
pub open spec fn checkbox_attributes() -> Seq<Seq<char>> {
    seq!["type"@, "checked"@, "disabled"@]
}

/// The sanitized form of the HTML fragment `raw`: cleaned against the sanitizer's default
/// allow-list extended by the `style` and `class` attributes on any tag and the checkbox
/// tag, with every link's `rel` forced to `noopener noreferrer`; the empty fragment where
/// `raw` is longer than [`MAX_SANITIZED_CHARS`].
pub open spec fn sanitized_fragment(raw: Seq<char>) -> Seq<char> {
    if raw.len() <= MAX_SANITIZED_CHARS {
        sanitized_html(
            raw,
            extra_generic_attributes(),
            extra_tags(),
            "input"@,
            checkbox_attributes(),
            "noopener noreferrer"@,
        )
    } else {
        Seq::empty()
    }
}

/// The sanitized HTML fragment for `markdown`: parsed with tables, footnotes,
/// strikethrough, task lists and smart punctuation switched on, then cleaned against the
/// sanitizer's default allow-list extended by the `style` and `class` attributes on any tag
/// and the checkbox tag, with every link's `rel` forced to `noopener noreferrer`.
///
/// Where the parser's output is longer than [`MAX_SANITIZED_CHARS`], the sanitizer cannot
/// take it, and the fragment is empty: nothing unsanitized is ever handed out.
pub open spec fn markdown_html(markdown: Seq<char>) -> Seq<char> {
    sanitized_fragment(rendered_html(markdown, true, true, true, true, true))
}

/// Runs pulldown-cmark: `Parser::new_ext` on `markdown` with exactly the named options set,
/// then `html::push_html` into an empty string. The contract claims only that the output
/// is a function of the text and the five switches; nothing is proved of its content.
#[verifier::external_body]
fn markdown_to_html(
    markdown: &str,
    tables: bool,
    footnotes: bool,
    strikethrough: bool,
    task_lists: bool,
    smart_punctuation: bool,
) -> (html: String)
    ensures
        html@ == rendered_html(
            markdown@,
            tables,
            footnotes,
            strikethrough,
            task_lists,
            smart_punctuation,
        ),
{
    let mut options = pulldown_cmark::Options::empty();
    options.set(pulldown_cmark::Options::ENABLE_TABLES, tables);
    options.set(pulldown_cmark::Options::ENABLE_FOOTNOTES, footnotes);
    options.set(pulldown_cmark::Options::ENABLE_STRIKETHROUGH, strikethrough);
    options.set(pulldown_cmark::Options::ENABLE_TASKLISTS, task_lists);
    options.set(pulldown_cmark::Options::ENABLE_SMART_PUNCTUATION, smart_punctuation);
    let mut html = String::new();
    pulldown_cmark::html::push_html(&mut html, pulldown_cmark::Parser::new_ext(markdown, options));
    html
}

/// Runs ammonia: `Builder::default()` extended through `add_generic_attributes`, `add_tags`,
/// `add_tag_attributes` and `link_rel`, then `clean` on `html`, written out as a string.
///
/// `clean` panics on a contradictory configuration. With a link `rel` set and the other
/// defaults untouched, that is: `rel` admitted as an attribute generally or on `a`, or a tag
/// whose content the defaults strip (`script`, `style`) admitted or given attributes. It
/// also panics on a text that its buffers cannot hold: they take at most `u32::MAX` bytes
/// at once and, growing by doubling, at most `2^31` bytes in all, while a text and what
/// is built from it take at most four bytes for each character. Two texts go into such
/// buffers: `html`, and `link_rel`, which is copied before the document is looked at. The
/// preconditions exclude both kinds of panic. The contract claims only that the output is a function of the arguments; nothing
/// is proved of its content.
#[verifier::external_body]
fn clean_html(
    html: &str,
    generic_attributes: &Vec<&'static str>,
    tags: &Vec<&'static str>,
    tag: &'static str,
    tag_attributes: &Vec<&'static str>,
    link_rel: &'static str,
) -> (clean: String)
    requires
        html@.len() <= MAX_SANITIZED_CHARS,
        link_rel@.len() <= MAX_SANITIZED_CHARS,
        forall|i: int| 0 <= i < generic_attributes@.len() ==> generic_attributes@[i]@ != "rel"@,
        tag@ == "a"@ ==> forall|i: int|
            0 <= i < tag_attributes@.len() ==> tag_attributes@[i]@ != "rel"@,
        forall|i: int|
            0 <= i < tags@.len() ==> tags@[i]@ != "script"@ && tags@[i]@ != "style"@,
        tag@ != "script"@,
        tag@ != "style"@,
    ensures
        clean@ == sanitized_html(
            html@,
            texts(generic_attributes@),
            texts(tags@),
            tag@,
            texts(tag_attributes@),
            link_rel@,
        ),
{
    let mut builder = ammonia::Builder::default();
    builder.add_generic_attributes(generic_attributes.iter().copied());
    builder.add_tags(tags.iter().copied());
    builder.add_tag_attributes(tag, tag_attributes.iter().copied());
    builder.link_rel(Some(link_rel));
    builder.clean(html).to_string()
}

/// Sanitizes an HTML fragment against the library's allow-list. Never fails: the
/// allow-list handed to the sanitizer is proved free of the contradictions on which it
/// would give up, and a fragment too long for the sanitizer gives the empty fragment.
pub fn sanitize_fragment(raw: &str) -> (html: String)
    ensures
        html@ == sanitized_fragment(raw@),
{
    if raw.unicode_len() > MAX_SANITIZED_CHARS {
        return String::new();
    }
    let generic_attributes: Vec<&'static str> = vec!["style", "class"];
    let tags: Vec<&'static str> = vec!["input"];
    let tag_attributes: Vec<&'static str> = vec!["type", "checked", "disabled"];
    proof {
        reveal_strlit("style");
        reveal_strlit("class");
        reveal_strlit("input");
        reveal_strlit("type");
        reveal_strlit("checked");
        reveal_strlit("disabled");
        reveal_strlit("rel");
        reveal_strlit("script");
        reveal_strlit("a");
        reveal_strlit("noopener noreferrer");
        assert("rel"@.len() == 3 && "style"@.len() == 5 && "class"@.len() == 5);
        assert("script"@.len() == 6 && "input"@.len() == 5 && "a"@.len() == 1);
        assert(generic_attributes@[0]@ == "style"@ && generic_attributes@[1]@ == "class"@);
        assert(tags@[0]@ == "input"@ && "input"@[0] == 'i' && "style"@[0] == 's');
        assert(texts(generic_attributes@) =~= extra_generic_attributes());
        assert(texts(tags@) =~= extra_tags());
        assert(texts(tag_attributes@) =~= checkbox_attributes());
    }
    clean_html(raw, &generic_attributes, &tags, "input", &tag_attributes, "noopener noreferrer")
}

/// Converts markdown text into a sanitized HTML fragment. Never fails: every input is
/// rendered, and every rendering is sanitized.
pub fn parse_markdown_internal(content: String) -> (html: String)
    ensures
        html@ == markdown_html(content@),
{
    let raw = markdown_to_html(content.as_str(), true, true, true, true, true);
    sanitize_fragment(raw.as_str())
}

} // verus!
