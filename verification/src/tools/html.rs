//! Reduction of an HTML page to its visible text.

use vstd::prelude::*;

use crate::text::{
    ascii_lower, chars_of, is_white_space, join, joined, lines, lines_of, same_text, starts_with,
    texts, to_ascii_lower, trim, trim_of, white_space,
};

verus! {

/// The lowercase equivalent of a text, as Unicode defines it.
pub uninterp spec fn lowercase(s: Seq<char>) -> Seq<char>;

/// `str::to_lowercase` gives the lowercase equivalent of a text, named
/// [`lowercase`]. A text of ASCII characters without `A` to `Z` is its own
/// lowercase equivalent.
pub assume_specification[ str::to_lowercase ](s: &str) -> (lower: String)
    ensures
        lower@ == lowercase(s@),
        (forall|i: int| 0 <= i < s@.len() ==> (#[trigger] s@[i]) <= '\u{7f}' && !('A' <= s@[i]
            <= 'Z')) ==> lower@ == s@,
;

/// The name of the tag whose text after `<` is `rest`: up to `>`, a space or
/// the end, with `A` to `Z` made small.
pub open spec fn tag_name(rest: Seq<char>) -> Seq<char>
    decreases rest.len(),
{
    if rest.len() == 0 || rest[0] == '>' || rest[0] == ' ' {
        Seq::empty()
    } else {
        seq![ascii_lower(rest[0])] + tag_name(rest.skip(1))
    }
}

/// The tags that begin a new line.
pub open spec fn block_tag(name: Seq<char>) -> bool {
    ||| name == "br"@
    ||| name == "p"@
    ||| name == "div"@
    ||| name == "tr"@
    ||| name == "li"@
    ||| name == "h1"@
    ||| name == "h2"@
    ||| name == "h3"@
    ||| name == "h4"@
    ||| name == "h5"@
    ||| name == "h6"@
    ||| name == "blockquote"@
    ||| name == "hr"@
    ||| name == "pre"@
    ||| name == "/p"@
    ||| name == "/div"@
    ||| name == "/tr"@
    ||| name == "/li"@
    ||| name == "/h1"@
    ||| name == "/h2"@
    ||| name == "/h3"@
    ||| name == "/h4"@
    ||| name == "/h5"@
    ||| name == "/h6"@
    ||| name == "/blockquote"@
    ||| name == "/pre"@
    ||| name == "table"@
    ||| name == "/table"@
    ||| name == "/ol"@
    ||| name == "/ul"@
    ||| name == "ol"@
    ||| name == "ul"@
    ||| name == "/title"@
    ||| name == "title"@
}

/// Whether a tag begins a new line.
pub fn is_block_tag(name: &str) -> (yes: bool)
    ensures
        yes == block_tag(name@),
{
    same_text(name, "br") || same_text(name, "p") || same_text(name, "div") || same_text(
        name,
        "tr",
    ) || same_text(name, "li") || same_text(name, "h1") || same_text(name, "h2") || same_text(
        name,
        "h3",
    ) || same_text(name, "h4") || same_text(name, "h5") || same_text(name, "h6") || same_text(
        name,
        "blockquote",
    ) || same_text(name, "hr") || same_text(name, "pre") || same_text(name, "/p") || same_text(
        name,
        "/div",
    ) || same_text(name, "/tr") || same_text(name, "/li") || same_text(name, "/h1") || same_text(
        name,
        "/h2",
    ) || same_text(name, "/h3") || same_text(name, "/h4") || same_text(name, "/h5") || same_text(
        name,
        "/h6",
    ) || same_text(name, "/blockquote") || same_text(name, "/pre") || same_text(name, "table")
        || same_text(name, "/table") || same_text(name, "/ol") || same_text(name, "/ul")
        || same_text(name, "ol") || same_text(name, "ul") || same_text(name, "/title")
        || same_text(name, "title")
}

/// Whether a text is made of ASCII characters.
pub open spec fn ascii(s: Seq<char>) -> bool {
    forall|i: int| 0 <= i < s.len() ==> (#[trigger] s[i]) <= '\u{7f}'
}

/// Whether a tag, whose name has no letters `A` to `Z`, begins a new line.
pub open spec fn breaks_line(name: Seq<char>) -> bool {
    if ascii(name) {
        block_tag(name)
    } else {
        block_tag(lowercase(name))
    }
}

/// Where a scan of a page stands: what it is inside of, and the text so far.
pub struct Scan {
    pub in_tag: bool,
    pub in_script: bool,
    pub in_style: bool,
    pub out: Seq<char>,
}

/// The scan after a `<` that opens the tag `name`.
pub open spec fn after_tag(scan: Scan, name: Seq<char>) -> Scan {
    let (in_script, in_style) = if name == "script"@ {
        (true, scan.in_style)
    } else if name == "style"@ {
        (scan.in_script, true)
    } else if "/script"@.is_prefix_of(name) {
        (false, scan.in_style)
    } else if "/style"@.is_prefix_of(name) {
        (scan.in_script, false)
    } else {
        (scan.in_script, scan.in_style)
    };
    let breaks = !in_script && !in_style && breaks_line(name) && scan.out.len() > 0
        && scan.out.last() != '\n';
    Scan {
        in_tag: true,
        in_script,
        in_style,
        out: if breaks {
            scan.out.push('\n')
        } else {
            scan.out
        },
    }
}

/// The scan after the character `c`, where `rest` follows it.
pub open spec fn scan_step(scan: Scan, c: char, rest: Seq<char>) -> Scan {
    if c == '<' {
        after_tag(scan, tag_name(rest))
    } else if c == '>' {
        Scan { in_tag: false, ..scan }
    } else if !scan.in_tag && !scan.in_script && !scan.in_style {
        Scan { out: scan.out.push(c), ..scan }
    } else {
        scan
    }
}

/// The scan of the first `n` characters of a page.
pub open spec fn scanned(html: Seq<char>, n: int) -> Scan
    decreases n,
{
    if n <= 0 {
        Scan { in_tag: false, in_script: false, in_style: false, out: Seq::empty() }
    } else {
        scan_step(scanned(html, n - 1), html[n - 1], html.skip(n))
    }
}

/// `s` with every run of white space other than line feeds made one space, and
/// whether `s` ends in such a run.
pub open spec fn collapsed(s: Seq<char>) -> (Seq<char>, bool)
    decreases s.len(),
{
    if s.len() == 0 {
        (Seq::empty(), false)
    } else {
        let (out, in_run) = collapsed(s.drop_last());
        if white_space(s.last()) && s.last() != '\n' {
            (if in_run { out } else { out.push(' ') }, true)
        } else {
            (out.push(s.last()), false)
        }
    }
}

/// The lines that hold more than white space, each without the white space
/// around it.
pub open spec fn visible_lines(all: Seq<Seq<char>>) -> Seq<Seq<char>>
    decreases all.len(),
{
    if all.len() == 0 {
        Seq::empty()
    } else {
        let before = visible_lines(all.drop_last());
        let line = trim_of(all.last());
        if line.len() == 0 {
            before
        } else {
            before.push(line)
        }
    }
}

/// The visible text of a page.
pub open spec fn visible_text(html: Seq<char>) -> Seq<char> {
    joined(
        visible_lines(lines_of(collapsed(scanned(html, html.len() as int).out).0)),
        "\n"@,
    )
}

/// The name of the tag that opens at the `<` before position `from`.
fn read_tag_name(html: &[char], from: usize) -> (name: String)
    requires
        from <= html@.len(),
    ensures
        name@ == tag_name(html@.skip(from as int)),
{
    let n: usize = html.len();
    let mut name = String::new();
    let mut i: usize = from;
    while i < n && html[i] != '>' && html[i] != ' '
        invariant
            from <= i <= n == html@.len(),
            tag_name(html@.skip(from as int)) == name@ + tag_name(html@.skip(i as int)),
        decreases n - i,
    {
        let ghost before = name@;
        let ghost rest = html@.skip(i as int);
        name.push(to_ascii_lower(html[i]));
        assert(rest.skip(1) =~= html@.skip(i + 1));
        assert(before + (seq![ascii_lower(rest[0])] + tag_name(rest.skip(1))) =~= name@ + tag_name(
            rest.skip(1),
        ));
        i += 1;
    }
    assert(name@ + Seq::<char>::empty() =~= name@);
    name
}

proof fn lemma_tag_name_is_small(rest: Seq<char>)
    ensures
        forall|i: int|
            0 <= i < tag_name(rest).len() ==> !('A' <= #[trigger] tag_name(rest)[i] <= 'Z'),
    decreases rest.len(),
{
    if rest.len() > 0 && rest[0] != '>' && rest[0] != ' ' {
        lemma_tag_name_is_small(rest.skip(1));
        let more = tag_name(rest.skip(1));
        assert forall|i: int| 0 <= i < tag_name(rest).len() implies !('A' <= #[trigger] tag_name(
            rest,
        )[i] <= 'Z') by {
            if i == 0 {
                assert(tag_name(rest)[0] == ascii_lower(rest[0]));
            } else {
                assert(tag_name(rest)[i] == more[i - 1]);
            }
        }
    }
}

/// Scans a page for its text.
fn scan_page(html: &[char]) -> (out: Vec<char>)
    ensures
        out@ == scanned(html@, html@.len() as int).out,
{
    let mut in_tag = false;
    let mut in_script = false;
    let mut in_style = false;
    let mut out: Vec<char> = Vec::new();
    let n: usize = html.len();
    let mut i: usize = 0;
    while i < n
        invariant
            i <= n == html@.len(),
            scanned(html@, i as int) == (Scan { in_tag, in_script, in_style, out: out@ }),
        decreases n - i,
    {
        let c = html[i];
        if c == '<' {
            let name = read_tag_name(html, i + 1);
            if same_text(name.as_str(), "script") {
                in_script = true;
            } else if same_text(name.as_str(), "style") {
                in_style = true;
            } else if starts_with(name.as_str(), "/script") {
                in_script = false;
            } else if starts_with(name.as_str(), "/style") {
                in_style = false;
            }
            if !in_script && !in_style {
                proof {
                    lemma_tag_name_is_small(html@.skip(i + 1));
                }
                let lower = name.as_str().to_lowercase();
                if is_block_tag(lower.as_str()) && out.len() > 0 && out[out.len() - 1] != '\n' {
                    out.push('\n');
                }
            }
            in_tag = true;
        } else if c == '>' {
            in_tag = false;
        } else if !in_tag && !in_script && !in_style {
            out.push(c);
        }
        i += 1;
    }
    out
}

/// Makes every run of white space other than line feeds one space.
fn collapse(s: &[char]) -> (out: String)
    ensures
        out@ == collapsed(s@).0,
{
    let mut out = String::new();
    let mut in_run = false;
    let mut i: usize = 0;
    assert(s@.take(0) =~= Seq::empty());
    while i < s.len()
        invariant
            i <= s@.len(),
            (out@, in_run) == collapsed(s@.take(i as int)),
        decreases s.len() - i,
    {
        let c = s[i];
        assert(s@.take(i + 1).drop_last() =~= s@.take(i as int));
        if is_white_space(c) && c != '\n' {
            if !in_run {
                out.push(' ');
                in_run = true;
            }
        } else {
            out.push(c);
            in_run = false;
        }
        i += 1;
    }
    assert(s@.take(i as int) =~= s@);
    out
}

/// The visible text of an HTML page: no tags, no script or style content, runs
/// of white space made one space, blank lines dropped.
pub fn strip_html(html: &str) -> (text: String)
    ensures
        text@ == visible_text(html@),
{
    let chars = chars_of(html);
    let scanned_text = scan_page(&chars);
    let collapsed_text = collapse(&scanned_text);
    let all = lines(collapsed_text.as_str());
    let mut visible: Vec<String> = Vec::new();
    let mut i: usize = 0;
    assert(texts(all@).take(0) =~= Seq::empty());
    assert(texts(visible@) =~= Seq::empty());
    while i < all.len()
        invariant
            i <= all@.len(),
            texts(visible@) == visible_lines(texts(all@).take(i as int)),
        decreases all.len() - i,
    {
        let line = trim(all[i].as_str());
        let ghost before = texts(visible@);
        assert(texts(all@).take(i + 1).drop_last() =~= texts(all@).take(i as int));
        assert(texts(all@).take(i + 1).last() == all@[i as int]@);
        if !line.as_str().is_empty() {
            visible.push(line);
            assert(texts(visible@) =~= before.push(line@));
        }
        i += 1;
    }
    assert(texts(all@).take(i as int) =~= texts(all@));
    join(&visible, "\n")
}

} // verus!
