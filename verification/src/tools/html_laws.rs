//! What holds of the visible text of pages: what tags do to it, and that it is
//! its own visible text.

use vstd::prelude::*;

use crate::text::{
    ascii_lower, ascii_lower_text, joined, law_pieces_make_up_the_text,
    law_trimming_takes_the_white_space_around, lemma_split_nonempty, lemma_unsplit, lines_of, split_on, strip_return, trim_end_of, trim_of,
    trim_start_of, white_space,
};
use crate::tools::html::{
    after_tag, ascii, block_tag, breaks_line, collapsed, scanned, tag_name, visible_lines,
    visible_text, Scan,
};

verus! {

/// A page with `body` inside an element `tag`.
pub open spec fn page_with(
    before: Seq<char>,
    tag: Seq<char>,
    body: Seq<char>,
    after: Seq<char>,
) -> Seq<char> {
    before + "<"@ + tag + ">"@ + body + "</"@ + tag + ">"@ + after
}

proof fn lemma_tag_name_ends(rest: Seq<char>, more: Seq<char>)
    requires
        rest.contains('>'),
    ensures
        tag_name(rest + more) == tag_name(rest),
    decreases rest.len(),
{
    if rest[0] != '>' && rest[0] != ' ' {
        let k = choose|k: int| 0 <= k < rest.len() && rest[k] == '>';
        assert(rest.skip(1)[k - 1] == '>');
        lemma_tag_name_ends(rest.skip(1), more);
        assert((rest + more).skip(1) =~= rest.skip(1) + more);
    }
}

proof fn lemma_tag_name_of(tag: Seq<char>, more: Seq<char>)
    requires
        more.len() > 0,
        more[0] == '>',
        forall|i: int|
            0 <= i < tag.len() ==> (#[trigger] tag[i]) != '>' && tag[i] != ' ' && ascii_lower(
                tag[i],
            ) == tag[i],
    ensures
        tag_name(tag + more) == tag,
    decreases tag.len(),
{
    if tag.len() == 0 {
        assert(tag + more =~= more);
        assert(tag =~= Seq::empty());
    } else {
        lemma_tag_name_of(tag.skip(1), more);
        assert((tag + more).skip(1) =~= tag.skip(1) + more);
        assert(seq![tag[0]] + tag.skip(1) =~= tag);
    }
}

/// Scanning the start of a page up to a `>` does not depend on what follows.
proof fn lemma_scan_start(start: Seq<char>, more: Seq<char>, n: int)
    requires
        0 <= n <= start.len(),
        start.len() > 0,
        start.last() == '>',
    ensures
        scanned(start + more, n) == scanned(start, n),
    decreases n,
{
    if n > 0 {
        lemma_scan_start(start, more, n - 1);
        assert((start + more).skip(n) =~= start.skip(n) + more);
        if n < start.len() {
            assert(start.skip(n)[start.len() - n - 1] == '>');
            lemma_tag_name_ends(start.skip(n), more);
        }
    }
}

/// Inside a tag, or inside script or style content, text changes nothing.
proof fn lemma_hidden_run(html: Seq<char>, from: int, to: int)
    requires
        0 <= from <= to <= html.len(),
        forall|i: int| from <= i < to ==> (#[trigger] html[i]) != '<',
        ({
            let scan = scanned(html, from);
            ||| (!scan.in_tag && (scan.in_script || scan.in_style))
            ||| (scan.in_tag && forall|i: int| from <= i < to ==> (#[trigger] html[i]) != '>')
        }),
    ensures
        scanned(html, to) == scanned(html, from),
    decreases to - from,
{
    if from < to {
        lemma_hidden_run(html, from, to - 1);
    }
}

/// From equal scans, equal rests are scanned alike.
proof fn lemma_scan_rest(one: Seq<char>, at: int, two: Seq<char>, and: int, n: int)
    requires
        0 <= at <= one.len(),
        0 <= and <= two.len(),
        one.skip(at) == two.skip(and),
        scanned(one, at) == scanned(two, and),
        0 <= n <= one.len() - at,
    ensures
        scanned(one, at + n) == scanned(two, and + n),
    decreases n,
{
    if n > 0 {
        lemma_scan_rest(one, at, two, and, n - 1);
        assert(one.skip(at + n) =~= one.skip(at).skip(n));
        assert(two.skip(and + n) =~= two.skip(and).skip(n));
        assert(one[at + n - 1] == one.skip(at)[n - 1]);
        assert(two[and + n - 1] == two.skip(and)[n - 1]);
        assert(one.skip(at).len() == two.skip(and).len());
    }
}

/// The scan at the end of the content of a script or style element is the scan
/// at its start, which knows nothing of the content.
proof fn lemma_content_hidden(
    before: Seq<char>,
    tag: Seq<char>,
    body: Seq<char>,
    after: Seq<char>,
)
    requires
        tag == "script"@ || tag == "style"@,
        !body.contains('<'),
    ensures
        ({
            let start = before + "<"@ + tag + ">"@;
            scanned(page_with(before, tag, body, after), (start.len() + body.len()) as int)
                == scanned(start, start.len() as int)
        }),
{
    reveal_strlit("script");
    reveal_strlit("style");
    reveal_strlit("<");
    reveal_strlit(">");
    let start = before + "<"@ + tag + ">"@;
    let rest = "</"@ + tag + ">"@ + after;
    let html = page_with(before, tag, body, after);
    let n = before.len() as int;
    let m = start.len() as int;
    assert(html =~= start + (body + rest));
    assert(html =~= (start + body) + rest);
    assert(start.skip(n + 1) =~= tag + ">"@);
    lemma_tag_name_of(tag, ">"@);
    assert(scanned(start, n + 1) == after_tag(scanned(start, n), tag));
    let opened = scanned(start, n + 1);
    assert(opened.in_tag && (opened.in_script || opened.in_style)) by {
        if tag == "style"@ {
            assert("style"@.len() != "script"@.len());
        }
    }
    assert forall|i: int| n + 1 <= i < m - 1 implies (#[trigger] start[i]) != '<' && start[i]
        != '>' by {
        assert(start[i] == tag[i - n - 1]);
    }
    lemma_hidden_run(start, n + 1, m - 1);
    assert(start[m - 1] == '>');
    lemma_scan_start(start, body + rest, m);
    assert forall|i: int| m <= i < m + body.len() implies (#[trigger] html[i]) != '<' by {
        assert(html[i] == body[i - m]);
    }
    lemma_hidden_run(html, m, m + body.len());
}

/// What stands inside a script or style element never shows: two pages that
/// differ only there have the same visible text.
pub proof fn law_script_and_style_content_is_dropped(
    before: Seq<char>,
    tag: Seq<char>,
    body: Seq<char>,
    other: Seq<char>,
    after: Seq<char>,
)
    requires
        tag == "script"@ || tag == "style"@,
        !body.contains('<'),
        !other.contains('<'),
    ensures
        visible_text(page_with(before, tag, body, after)) == visible_text(
            page_with(before, tag, other, after),
        ),
{
    let start = before + "<"@ + tag + ">"@;
    let rest = "</"@ + tag + ">"@ + after;
    let one = page_with(before, tag, body, after);
    let two = page_with(before, tag, other, after);
    lemma_content_hidden(before, tag, body, after);
    lemma_content_hidden(before, tag, other, after);
    let at = (start.len() + body.len()) as int;
    let and = (start.len() + other.len()) as int;
    assert(one =~= (start + body) + rest);
    assert(two =~= (start + other) + rest);
    assert(one.skip(at) =~= rest);
    assert(two.skip(and) =~= rest);
    lemma_scan_rest(one, at, two, and, rest.len() as int);
}


/// Whether a page that begins so is, at the end of it, in the text: in no tag and
/// in no script or style element.
pub open spec fn ends_in_text(start: Seq<char>) -> bool {
    let scan = scanned(start, start.len() as int);
    !scan.in_tag && !scan.in_script && !scan.in_style
}

/// Whether a text can stand in a tag: a name, and attributes after it.
pub open spec fn tag_text(tag: Seq<char>) -> bool {
    !tag.contains('<') && !tag.contains('>')
}

/// The name that a tag has.
pub open spec fn name_of(tag: Seq<char>) -> Seq<char> {
    tag_name(tag + ">"@)
}

/// A page with a tag between two parts.
pub open spec fn tagged(before: Seq<char>, tag: Seq<char>, after: Seq<char>) -> Seq<char> {
    before + "<"@ + tag + ">"@ + after
}

proof fn lemma_scan_of_text(text: Seq<char>, n: int)
    requires
        forall|i: int| 0 <= i < text.len() ==> (#[trigger] text[i]) != '<' && text[i] != '>',
        0 <= n <= text.len(),
    ensures
        scanned(text, n) == (Scan {
            in_tag: false,
            in_script: false,
            in_style: false,
            out: text.take(n),
        }),
    decreases n,
{
    if n > 0 {
        lemma_scan_of_text(text, n - 1);
        assert(text[n - 1] != '<' && text[n - 1] != '>');
        assert(text.take(n - 1).push(text[n - 1]) =~= text.take(n));
    } else {
        assert(text.take(0) =~= Seq::empty());
    }
}

/// A page that begins with text and no angle brackets is in the text after it.
pub proof fn law_plain_text_ends_in_text(text: Seq<char>)
    requires
        !text.contains('<'),
        !text.contains('>'),
    ensures
        ends_in_text(text),
{
    assert forall|i: int| 0 <= i < text.len() implies (#[trigger] text[i]) != '<' && text[i]
        != '>' by {
        assert(text.contains(text[i]));
    }
    lemma_scan_of_text(text, text.len() as int);
}

proof fn lemma_stays_in_tag(html: Seq<char>, from: int, to: int)
    requires
        0 <= from <= to <= html.len(),
        scanned(html, from).in_tag,
        forall|i: int| from <= i < to ==> (#[trigger] html[i]) != '>',
    ensures
        scanned(html, to).in_tag,
    decreases to - from,
{
    if from < to {
        lemma_stays_in_tag(html, from, to - 1);
    }
}

/// The scan of the start of a page that ends outside of a tag does not depend on
/// what follows.
proof fn lemma_scan_prefix(start: Seq<char>, more: Seq<char>, n: int)
    requires
        0 <= n <= start.len(),
        !scanned(start, start.len() as int).in_tag,
    ensures
        scanned(start + more, n) == scanned(start, n),
    decreases n,
{
    if n > 0 {
        lemma_scan_prefix(start, more, n - 1);
        let page = start + more;
        assert(page[n - 1] == start[n - 1]);
        assert(page.skip(n) =~= start.skip(n) + more);
        if start[n - 1] == '<' {
            if !start.skip(n).contains('>') {
                assert forall|i: int| n <= i < start.len() implies (#[trigger] start[i])
                    != '>' by {
                    assert(start.skip(n)[i - n] == start[i]);
                }
                lemma_stays_in_tag(start, n, start.len() as int);
            }
            lemma_tag_name_ends(start.skip(n), more);
        }
    }
}

/// The scan after a tag.
proof fn lemma_after_markup(before: Seq<char>, tag: Seq<char>, after: Seq<char>)
    requires
        tag_text(tag),
        !scanned(before, before.len() as int).in_tag,
    ensures
        ({
            let scan = after_tag(scanned(before, before.len() as int), name_of(tag));
            scanned(tagged(before, tag, after), (before.len() + tag.len() + 2) as int) == Scan {
                in_tag: false,
                ..scan
            }
        }),
{
    reveal_strlit("<");
    reveal_strlit(">");
    let n = before.len() as int;
    let opened = before + "<"@ + tag + ">"@;
    let end = opened.len() as int;
    assert(opened =~= before + ("<"@ + tag + ">"@));
    lemma_scan_prefix(before, "<"@ + tag + ">"@, n);
    assert(opened[n] == '<');
    assert(opened.skip(n + 1) =~= tag + ">"@);
    assert forall|i: int| n + 1 <= i < end - 1 implies (#[trigger] opened[i]) != '<' && opened[i]
        != '>' by {
        assert(opened[i] == tag[i - n - 1]);
        assert(tag.contains(tag[i - n - 1]));
    }
    lemma_hidden_run(opened, n + 1, end - 1);
    assert(opened[end - 1] == '>');
    assert(!scanned(opened, end).in_tag);
    lemma_scan_prefix(opened, after, end);
    assert(tagged(before, tag, after) =~= opened + after);
}

/// A tag that begins no new line and is neither that of a script nor that of a
/// style vanishes from the text.
pub proof fn law_inline_tags_vanish(before: Seq<char>, tag: Seq<char>, after: Seq<char>)
    requires
        ends_in_text(before),
        tag_text(tag),
        !breaks_line(name_of(tag)),
        name_of(tag) != "script"@,
        name_of(tag) != "style"@,
    ensures
        visible_text(tagged(before, tag, after)) == visible_text(before + after),
{
    reveal_strlit("<");
    reveal_strlit(">");
    let one = tagged(before, tag, after);
    let two = before + after;
    let at = (before.len() + tag.len() + 2) as int;
    let and = before.len() as int;
    lemma_after_markup(before, tag, after);
    lemma_scan_prefix(before, after, and);
    assert(one.skip(at) =~= after);
    assert(two.skip(and) =~= after);
    lemma_scan_rest(one, at, two, and, after.len() as int);
}

proof fn lemma_end_tags_break_no_line(name: Seq<char>)
    requires
        name == "/script"@ || name == "/style"@,
    ensures
        tag_text(name),
        name_of(name) == name,
        !breaks_line(name),
{
    reveal_strlit("br");
    reveal_strlit("p");
    reveal_strlit("div");
    reveal_strlit("tr");
    reveal_strlit("li");
    reveal_strlit("h1");
    reveal_strlit("h2");
    reveal_strlit("h3");
    reveal_strlit("h4");
    reveal_strlit("h5");
    reveal_strlit("h6");
    reveal_strlit("blockquote");
    reveal_strlit("hr");
    reveal_strlit("pre");
    reveal_strlit("/p");
    reveal_strlit("/div");
    reveal_strlit("/tr");
    reveal_strlit("/li");
    reveal_strlit("/h1");
    reveal_strlit("/h2");
    reveal_strlit("/h3");
    reveal_strlit("/h4");
    reveal_strlit("/h5");
    reveal_strlit("/h6");
    reveal_strlit("/blockquote");
    reveal_strlit("/pre");
    reveal_strlit("table");
    reveal_strlit("/table");
    reveal_strlit("/ol");
    reveal_strlit("/ul");
    reveal_strlit("ol");
    reveal_strlit("ul");
    reveal_strlit("/title");
    reveal_strlit("title");
    reveal_strlit("/script");
    reveal_strlit("/style");
    reveal_strlit(">");
    lemma_tag_name_of(name, ">"@);
    assert(ascii(name));
    assert(name[0] == '/' && name[1] == 's');
    assert("br"@[0] != '/');
    assert("p"@[0] != '/');
    assert("div"@[0] != '/');
    assert("tr"@[0] != '/');
    assert("li"@[0] != '/');
    assert("h1"@[0] != '/');
    assert("h2"@[0] != '/');
    assert("h3"@[0] != '/');
    assert("h4"@[0] != '/');
    assert("h5"@[0] != '/');
    assert("h6"@[0] != '/');
    assert("blockquote"@[0] != '/');
    assert("hr"@[0] != '/');
    assert("pre"@[0] != '/');
    assert("/p"@[1] != 's');
    assert("/div"@[1] != 's');
    assert("/tr"@[1] != 's');
    assert("/li"@[1] != 's');
    assert("/h1"@[1] != 's');
    assert("/h2"@[1] != 's');
    assert("/h3"@[1] != 's');
    assert("/h4"@[1] != 's');
    assert("/h5"@[1] != 's');
    assert("/h6"@[1] != 's');
    assert("/blockquote"@[1] != 's');
    assert("/pre"@[1] != 's');
    assert("table"@[0] != '/');
    assert("/table"@[1] != 's');
    assert("/ol"@[1] != 's');
    assert("/ul"@[1] != 's');
    assert("ol"@[0] != '/');
    assert("ul"@[0] != '/');
    assert("/title"@[1] != 's');
    assert("title"@[0] != '/');
}

/// A script or style element vanishes from the text, with all that is in it.
pub proof fn law_script_and_style_elements_vanish(
    before: Seq<char>,
    tag: Seq<char>,
    body: Seq<char>,
    after: Seq<char>,
)
    requires
        ends_in_text(before),
        tag == "script"@ || tag == "style"@,
        !body.contains('<'),
    ensures
        visible_text(page_with(before, tag, body, after)) == visible_text(before + after),
{
    reveal_strlit("script");
    reveal_strlit("style");
    reveal_strlit("/script");
    reveal_strlit("/style");
    reveal_strlit("/");
    reveal_strlit("</");
    reveal_strlit("<");
    reveal_strlit(">");
    let page = page_with(before, tag, body, after);
    let start = before + "<"@ + tag + ">"@;
    let content = start + body;
    let end_tag = "/"@ + tag;
    let n = before.len() as int;
    let m = start.len() as int;
    let text = scanned(before, n);
    lemma_tag_name_of(tag, ">"@);
    assert(tag_text(tag));
    lemma_after_markup(before, tag, Seq::empty());
    assert(tagged(before, tag, Seq::empty()) =~= start);
    let inside = scanned(start, m);
    assert(!inside.in_tag);
    lemma_scan_prefix(start, body, m);
    assert forall|i: int| m <= i < content.len() implies (#[trigger] content[i]) != '<' by {
        assert(content[i] == body[i - m]);
    }
    lemma_hidden_run(content, m, content.len() as int);
    assert(scanned(content, content.len() as int) == inside);
    assert(end_tag =~= if tag == "script"@ { "/script"@ } else { "/style"@ });
    lemma_end_tags_break_no_line(end_tag);
    lemma_after_markup(content, end_tag, after);
    assert(tagged(content, end_tag, after) =~= page);
    let at = (content.len() + end_tag.len() + 2) as int;
    if tag == "script"@ {
        assert("/script"@.is_prefix_of(end_tag));
    } else {
        assert(!("/script"@.is_prefix_of(end_tag)));
        assert("/style"@.is_prefix_of(end_tag));
    }
    assert("style"@.len() != "script"@.len());
    assert(end_tag[0] == '/' && "script"@[0] == 's' && "style"@[0] == 's');
    assert(inside.out == text.out);
    assert(scanned(page, at) == text);
    let two = before + after;
    lemma_scan_prefix(before, after, n);
    assert(page.skip(at) =~= after);
    assert(two.skip(n) =~= after);
    lemma_scan_rest(page, at, two, n, after.len() as int);
}

/// From scans that differ by one line feed at the start of a line, equal rests
/// are scanned alike but for that line feed.
proof fn lemma_scan_shifted(
    one: Seq<char>,
    at: int,
    two: Seq<char>,
    and: int,
    start: Seq<char>,
    n: int,
) -> (rest: Seq<char>)
    requires
        0 <= at <= one.len(),
        0 <= and <= two.len(),
        one.skip(at) == two.skip(and),
        start.len() == 0 || start.last() == '\n',
        scanned(one, at).out == start,
        scanned(two, and) == (Scan { out: start.push('\n'), ..scanned(one, at) }),
        0 <= n <= one.len() - at,
    ensures
        scanned(one, at + n).out == start + rest,
        scanned(two, and + n) == (Scan {
            out: start.push('\n') + rest,
            ..scanned(one, at + n)
        }),
    decreases n,
{
    if n == 0 {
        let rest = Seq::<char>::empty();
        assert(start + rest =~= start);
        assert(start.push('\n') + rest =~= start.push('\n'));
        rest
    } else {
        let rest = lemma_scan_shifted(one, at, two, and, start, n - 1);
        assert(one.skip(at + n) =~= one.skip(at).skip(n));
        assert(two.skip(and + n) =~= two.skip(and).skip(n));
        assert(one[at + n - 1] == one.skip(at)[n - 1]);
        assert(two[and + n - 1] == two.skip(and)[n - 1]);
        assert(one.skip(at).len() == two.skip(and).len());
        let before = scanned(one, at + n - 1);
        let after = scanned(one, at + n);
        if after.out == before.out {
            rest
        } else {
            let more = rest.push(after.out.last());
            assert(start + more =~= (start + rest).push(after.out.last()));
            assert(start.push('\n') + more =~= (start.push('\n') + rest).push(after.out.last()));
            more
        }
    }
}

/// The visible lines of a text in which tags are gone.
spec fn shown(text: Seq<char>) -> Seq<Seq<char>> {
    visible_lines(lines_of(collapsed(text).0))
}

proof fn lemma_collapse_lines(one: Seq<char>, two: Seq<char>)
    ensures
        collapsed(one.push('\n') + two).0 == collapsed(one).0.push('\n') + collapsed(two).0,
        collapsed(one.push('\n') + two).1 == collapsed(two).1,
    decreases two.len(),
{
    let both = one.push('\n') + two;
    if two.len() == 0 {
        assert(both =~= one.push('\n'));
        assert(both.drop_last() =~= one);
        assert(collapsed(one).0.push('\n') + collapsed(two).0 =~= collapsed(one).0.push('\n'));
    } else {
        lemma_collapse_lines(one, two.drop_last());
        assert(both.drop_last() =~= one.push('\n') + two.drop_last());
        let start = collapsed(one).0.push('\n');
        let (out, in_run) = collapsed(two.drop_last());
        assert(start + out.push(' ') =~= (start + out).push(' '));
        assert(start + out.push(two.last()) =~= (start + out).push(two.last()));
    }
}

proof fn lemma_split_lines(one: Seq<char>, two: Seq<char>)
    ensures
        split_on(one.push('\n') + two, '\n') == split_on(one, '\n') + split_on(two, '\n'),
    decreases two.len(),
{
    let both = one.push('\n') + two;
    lemma_split_nonempty(two.drop_last(), '\n');
    let first = split_on(one, '\n');
    if two.len() == 0 {
        assert(both =~= one.push('\n'));
        assert(both.drop_last() =~= one);
        assert(first.push(Seq::empty()) =~= first + split_on(two, '\n'));
    } else {
        lemma_split_lines(one, two.drop_last());
        assert(both.drop_last() =~= one.push('\n') + two.drop_last());
        let rest = split_on(two.drop_last(), '\n');
        assert((first + rest).push(Seq::empty()) =~= first + rest.push(Seq::empty()));
        assert((first + rest).drop_last() =~= first + rest.drop_last());
        let extended = rest.last().push(two.last());
        assert((first + rest).drop_last().push(extended) =~= first + rest.drop_last().push(extended));
    }
}

proof fn lemma_trim_start_push(s: Seq<char>, c: char)
    requires
        white_space(c),
    ensures
        trim_start_of(s.push(c)) == if trim_start_of(s).len() == 0 {
            Seq::<char>::empty()
        } else {
            trim_start_of(s).push(c)
        },
    decreases s.len(),
{
    reveal_with_fuel(trim_start_of, 2);
    if s.len() == 0 {
        assert(s.push(c)[0] == c);
        assert(s.push(c).skip(1) =~= Seq::empty());
    } else {
        assert(s.push(c)[0] == s[0]);
        if white_space(s[0]) {
            lemma_trim_start_push(s.skip(1), c);
            assert(s.push(c).skip(1) =~= s.skip(1).push(c));
        }
    }
}

proof fn lemma_trim_ignores_return(line: Seq<char>)
    ensures
        trim_of(strip_return(line)) == trim_of(line),
{
    if line.len() > 0 && line.last() == '\r' {
        let rest = line.drop_last();
        assert(line =~= rest.push('\r'));
        lemma_trim_start_push(rest, '\r');
        let start = trim_start_of(rest);
        if start.len() > 0 {
            assert(start.push('\r').drop_last() =~= start);
        } else {
            assert(start =~= Seq::empty());
        }
    }
}

proof fn lemma_visible_lines_add(one: Seq<Seq<char>>, two: Seq<Seq<char>>)
    ensures
        visible_lines(one + two) == visible_lines(one) + visible_lines(two),
    decreases two.len(),
{
    if two.len() == 0 {
        assert(one + two =~= one);
        assert(visible_lines(one) + visible_lines(two) =~= visible_lines(one));
    } else {
        lemma_visible_lines_add(one, two.drop_last());
        assert((one + two).drop_last() =~= one + two.drop_last());
        let start = visible_lines(one);
        let rest = visible_lines(two.drop_last());
        let line = trim_of(two.last());
        assert(start + rest.push(line) =~= (start + rest).push(line));
    }
}

/// Carriage returns at the ends of lines do not show.
proof fn lemma_visible_ended(pieces: Seq<Seq<char>>, ended: Seq<Seq<char>>)
    requires
        ended.len() == pieces.len(),
        forall|i: int| 0 <= i < ended.len() ==> #[trigger] ended[i] == strip_return(pieces[i]),
    ensures
        visible_lines(ended) == visible_lines(pieces),
    decreases pieces.len(),
{
    if pieces.len() > 0 {
        lemma_visible_ended(pieces.drop_last(), ended.drop_last());
        lemma_trim_ignores_return(pieces.last());
    }
}

/// The visible lines are those of the pieces between line feeds.
proof fn lemma_visible_pieces(s: Seq<char>)
    ensures
        visible_lines(lines_of(s)) == visible_lines(split_on(s, '\n')),
{
    lemma_split_nonempty(s, '\n');
    let pieces = split_on(s, '\n');
    let ended = Seq::new((pieces.len() - 1) as nat, |i: int| strip_return(pieces[i]));
    lemma_visible_ended(pieces.drop_last(), ended);
    if pieces.last().len() > 0 {
        assert(ended.push(pieces.last()).drop_last() =~= ended);
    } else {
        assert(pieces.last() =~= Seq::empty());
        assert(trim_of(pieces.last()).len() == 0);
    }
}

/// The visible lines on both sides of a line feed are those of the two sides.
proof fn lemma_shown_lines(one: Seq<char>, two: Seq<char>)
    ensures
        shown(one.push('\n') + two) == shown(one) + shown(two),
{
    lemma_collapse_lines(one, two);
    let first = collapsed(one).0;
    let second = collapsed(two).0;
    lemma_split_lines(first, second);
    lemma_visible_pieces(first);
    lemma_visible_pieces(second);
    lemma_visible_pieces(first.push('\n') + second);
    lemma_visible_lines_add(split_on(first, '\n'), split_on(second, '\n'));
}

proof fn lemma_nothing_shown()
    ensures
        shown(Seq::empty()) == Seq::<Seq<char>>::empty(),
{
    lemma_visible_pieces(Seq::empty());
    reveal_with_fuel(visible_lines, 2);
    reveal_with_fuel(split_on, 2);
    assert(split_on(Seq::<char>::empty(), '\n') =~= seq![Seq::<char>::empty()]);
    assert(seq![Seq::<char>::empty()].drop_last() =~= Seq::empty());
}

/// A blank line does not show.
proof fn lemma_blank_line(start: Seq<char>, rest: Seq<char>)
    requires
        start.len() == 0 || start.last() == '\n',
    ensures
        shown(start.push('\n') + rest) == shown(start + rest),
{
    let nothing = Seq::<char>::empty();
    lemma_nothing_shown();
    lemma_shown_lines(start, rest);
    if start.len() == 0 {
        assert(start =~= nothing);
        assert(start + rest =~= rest);
        assert(shown(nothing) + shown(rest) =~= shown(rest));
    } else {
        let line = start.drop_last();
        assert(start =~= line.push('\n'));
        lemma_shown_lines(line, rest);
        lemma_shown_lines(line, nothing);
        assert(line.push('\n') + nothing =~= start);
        assert(shown(line) + shown(nothing) =~= shown(line));
    }
}

/// A tag that begins a new line does to the text what a line feed does.
pub proof fn law_block_tags_are_line_feeds(before: Seq<char>, tag: Seq<char>, after: Seq<char>)
    requires
        ends_in_text(before),
        tag_text(tag),
        breaks_line(name_of(tag)),
        name_of(tag) != "script"@,
        name_of(tag) != "style"@,
    ensures
        visible_text(tagged(before, tag, after)) == visible_text(before + "\n"@ + after),
{
    reveal_strlit("<");
    reveal_strlit(">");
    reveal_strlit("\n");
    let one = tagged(before, tag, after);
    let line = before + "\n"@;
    let two = line + after;
    let at = (before.len() + tag.len() + 2) as int;
    let n = before.len() as int;
    let and = n + 1;
    let text = scanned(before, n);
    lemma_after_markup(before, tag, after);
    lemma_scan_prefix(before, "\n"@, n);
    assert(line[n] == '\n');
    assert(scanned(line, and) == (Scan { out: text.out.push('\n'), ..text }));
    lemma_scan_prefix(line, after, and);
    assert(one.skip(at) =~= after);
    assert(two.skip(and) =~= after);
    if text.out.len() > 0 && text.out.last() != '\n' {
        lemma_scan_rest(one, at, two, and, after.len() as int);
    } else {
        let rest = lemma_scan_shifted(one, at, two, and, text.out, after.len() as int);
        lemma_blank_line(text.out, rest);
    }
}

/// Whether a text has no angle brackets, and no blanks other than single spaces
/// and line feeds.
spec fn neat(s: Seq<char>) -> bool {
    forall|i: int|
        0 <= i < s.len() ==> (#[trigger] s[i]) != '<' && s[i] != '>' && (white_space(s[i])
            ==> s[i] == '\n' || s[i] == ' ' && (i > 0 ==> s[i - 1] != ' '))
}

/// Whether a text is a neat line: no line feeds.
spec fn neat_line(s: Seq<char>) -> bool {
    neat(s) && !s.contains('\n')
}

proof fn lemma_scan_has_no_brackets(html: Seq<char>, n: int)
    requires
        0 <= n <= html.len(),
    ensures
        forall|i: int|
            0 <= i < scanned(html, n).out.len() ==> (#[trigger] scanned(html, n).out[i]) != '<'
                && scanned(html, n).out[i] != '>',
    decreases n,
{
    if n > 0 {
        lemma_scan_has_no_brackets(html, n - 1);
        let before = scanned(html, n - 1).out;
        let out = scanned(html, n).out;
        assert(out == before || out == before.push('\n') || out == before.push(html[n - 1])
            && html[n - 1] != '<' && html[n - 1] != '>');
        assert forall|i: int| 0 <= i < out.len() implies (#[trigger] out[i]) != '<' && out[i]
            != '>' by {
            if i < before.len() {
                assert(out[i] == before[i]);
            }
        }
    }
}

proof fn lemma_collapsed_is_neat(s: Seq<char>)
    requires
        forall|i: int| 0 <= i < s.len() ==> (#[trigger] s[i]) != '<' && s[i] != '>',
    ensures
        neat(collapsed(s).0),
        collapsed(s).1 == (collapsed(s).0.len() > 0 && collapsed(s).0.last() == ' '),
    decreases s.len(),
{
    if s.len() > 0 {
        let rest = s.drop_last();
        assert(forall|i: int| 0 <= i < rest.len() ==> #[trigger] rest[i] == s[i]);
        lemma_collapsed_is_neat(rest);
        let out = collapsed(rest).0;
        let more = collapsed(s).0;
        if more != out {
            assert(more =~= out.push(more.last()));
            assert forall|i: int| 0 <= i < more.len() implies (#[trigger] more[i]) != '<'
                && more[i] != '>' && (white_space(more[i]) ==> more[i] == '\n' || more[i] == ' '
                && (i > 0 ==> more[i - 1] != ' ')) by {
                if i < out.len() {
                    assert(more[i] == out[i]);
                    if i > 0 {
                        assert(more[i - 1] == out[i - 1]);
                    }
                } else {
                    assert(s[s.len() - 1] == s.last());
                }
            }
        }
    }
}

proof fn lemma_neat_is_collapsed(s: Seq<char>)
    requires
        neat(s),
    ensures
        collapsed(s).0 == s,
        collapsed(s).1 == (s.len() > 0 && s.last() == ' '),
    decreases s.len(),
{
    if s.len() > 0 {
        let rest = s.drop_last();
        assert forall|i: int| 0 <= i < rest.len() implies (#[trigger] rest[i]) != '<' && rest[i]
            != '>' && (white_space(rest[i]) ==> rest[i] == '\n' || rest[i] == ' ' && (i > 0
            ==> rest[i - 1] != ' ')) by {
            assert(s[i] == rest[i]);
        }
        lemma_neat_is_collapsed(rest);
        assert(s[s.len() - 1] == s.last());
        assert(rest.push(s.last()) =~= s);
    }
}

/// The pieces of a neat text are neat lines.
proof fn lemma_pieces_are_neat(s: Seq<char>)
    requires
        neat(s),
    ensures
        ({
            let pieces = split_on(s, '\n');
            &&& pieces.len() > 0
            &&& forall|i: int| 0 <= i < pieces.len() ==> neat_line(#[trigger] pieces[i])
            &&& pieces.last().len() > 0 ==> s.len() > 0 && pieces.last().last() == s.last()
        }),
    decreases s.len(),
{
    let pieces = split_on(s, '\n');
    if s.len() > 0 {
        let rest = s.drop_last();
        assert forall|i: int| 0 <= i < rest.len() implies (#[trigger] rest[i]) != '<' && rest[i]
            != '>' && (white_space(rest[i]) ==> rest[i] == '\n' || rest[i] == ' ' && (i > 0
            ==> rest[i - 1] != ' ')) by {
            assert(s[i] == rest[i]);
        }
        lemma_pieces_are_neat(rest);
        let before = split_on(rest, '\n');
        let c = s.last();
        assert(s[s.len() - 1] == c);
        if c != '\n' {
            let line = before.last();
            let longer = line.push(c);
            assert(neat_line(before[before.len() - 1]));
            assert forall|i: int| 0 <= i < longer.len() implies (#[trigger] longer[i]) != '<'
                && longer[i] != '>' && (white_space(longer[i]) ==> longer[i] == '\n' || longer[i]
                == ' ' && (i > 0 ==> longer[i - 1] != ' ')) by {
                if i < line.len() {
                    assert(longer[i] == line[i]);
                    if i > 0 {
                        assert(longer[i - 1] == line[i - 1]);
                    }
                } else if i > 0 {
                    assert(longer[i - 1] == line.last());
                    assert(s[s.len() - 2] == rest.last());
                }
            }
            if longer.contains('\n') {
                let k = choose|k: int| 0 <= k < longer.len() && longer[k] == '\n';
                assert(line[k] == '\n');
            }
            assert(neat_line(longer));
        }
        assert forall|i: int| 0 <= i < pieces.len() implies neat_line(#[trigger] pieces[i]) by {
            if i < before.len() - 1 {
                assert(pieces[i] == before[i]);
            } else if i < before.len() && c == '\n' {
                assert(pieces[i] == before[i]);
            }
        }
    }
}

/// Trimming takes a part of a text that neither begins nor ends in a blank.
proof fn lemma_trim_start(s: Seq<char>)
    requires
        neat_line(s),
    ensures
        neat_line(trim_start_of(s)),
        trim_start_of(s).len() > 0 ==> !white_space(trim_start_of(s)[0]),
    decreases s.len(),
{
    if s.len() > 0 && white_space(s[0]) {
        let rest = s.skip(1);
        assert forall|i: int| 0 <= i < rest.len() implies (#[trigger] rest[i]) != '<' && rest[i]
            != '>' && (white_space(rest[i]) ==> rest[i] == '\n' || rest[i] == ' ' && (i > 0
            ==> rest[i - 1] != ' ')) by {
            assert(s[i + 1] == rest[i]);
            if i > 0 {
                assert(rest[i - 1] == s[i]);
            }
        }
        if rest.contains('\n') {
            let k = choose|k: int| 0 <= k < rest.len() && rest[k] == '\n';
            assert(s[k + 1] == '\n');
        }
        lemma_trim_start(rest);
    }
}

proof fn lemma_trim_end(s: Seq<char>)
    requires
        neat_line(s),
        s.len() > 0 ==> !white_space(s[0]),
    ensures
        neat_line(trim_end_of(s)),
        s.len() > 0 ==> trim_end_of(s).len() > 0,
        trim_end_of(s).len() > 0 ==> !white_space(trim_end_of(s)[0]) && !white_space(
            trim_end_of(s).last(),
        ),
    decreases s.len(),
{
    if s.len() > 0 && white_space(s.last()) {
        let rest = s.drop_last();
        assert(s.len() > 1) by {
            if s.len() == 1 {
                assert(s[0] == s.last());
            }
        }
        assert forall|i: int| 0 <= i < rest.len() implies (#[trigger] rest[i]) != '<' && rest[i]
            != '>' && (white_space(rest[i]) ==> rest[i] == '\n' || rest[i] == ' ' && (i > 0
            ==> rest[i - 1] != ' ')) by {
            assert(s[i] == rest[i]);
        }
        if rest.contains('\n') {
            let k = choose|k: int| 0 <= k < rest.len() && rest[k] == '\n';
            assert(s[k] == '\n');
        }
        assert(rest[0] == s[0]);
        lemma_trim_end(rest);
    }
}

/// Whether a line is as the text shows it.
spec fn settled(line: Seq<char>) -> bool {
    neat_line(line) && line.len() > 0 && trim_of(line) == line
}

proof fn lemma_visible_lines_are_settled(pieces: Seq<Seq<char>>)
    requires
        forall|i: int| 0 <= i < pieces.len() ==> neat_line(#[trigger] pieces[i]),
    ensures
        forall|i: int|
            0 <= i < visible_lines(pieces).len() ==> settled(#[trigger] visible_lines(pieces)[i]),
    decreases pieces.len(),
{
    if pieces.len() > 0 {
        let rest = pieces.drop_last();
        assert forall|i: int| 0 <= i < rest.len() implies neat_line(#[trigger] rest[i]) by {
            assert(pieces[i] == rest[i]);
        }
        lemma_visible_lines_are_settled(rest);
        let last = pieces[pieces.len() - 1];
        lemma_trim_start(last);
        lemma_trim_end(trim_start_of(last));
        assert(trim_of(last).len() > 0 ==> settled(trim_of(last)));
        let before = visible_lines(rest);
        let all = visible_lines(pieces);
        assert forall|i: int| 0 <= i < all.len() implies settled(#[trigger] all[i]) by {
            if i < before.len() {
                assert(all[i] == before[i]);
            }
        }
    }
}

proof fn lemma_settled_lines_stay(lines: Seq<Seq<char>>)
    requires
        forall|i: int| 0 <= i < lines.len() ==> settled(#[trigger] lines[i]),
    ensures
        visible_lines(lines) == lines,
    decreases lines.len(),
{
    if lines.len() > 0 {
        let rest = lines.drop_last();
        assert forall|i: int| 0 <= i < rest.len() implies settled(#[trigger] rest[i]) by {
            assert(lines[i] == rest[i]);
        }
        lemma_settled_lines_stay(rest);
        assert(settled(lines[lines.len() - 1]));
        assert(rest.push(lines.last()) =~= lines);
    }
}

/// Settled lines with line feeds between them are neat, and are their lines.
proof fn lemma_joined_lines(lines: Seq<Seq<char>>)
    requires
        forall|i: int| 0 <= i < lines.len() ==> settled(#[trigger] lines[i]),
        lines.len() > 0,
    ensures
        neat(joined(lines, "\n"@)),
        split_on(joined(lines, "\n"@), '\n') == lines,
    decreases lines.len(),
{
    reveal_strlit("\n");
    let last = lines[lines.len() - 1];
    assert(settled(last));
    lemma_unsplit(last, '\n');
    if lines.len() == 1 {
        assert(lines =~= seq![last]);
    } else {
        let rest = lines.drop_last();
        assert forall|i: int| 0 <= i < rest.len() implies settled(#[trigger] rest[i]) by {
            assert(lines[i] == rest[i]);
        }
        lemma_joined_lines(rest);
        let start = joined(rest, "\n"@);
        let whole = joined(lines, "\n"@);
        assert(whole =~= start.push('\n') + last);
        lemma_split_lines(start, last);
        assert(rest + seq![last] =~= lines);
        assert forall|i: int| 0 <= i < whole.len() implies (#[trigger] whole[i]) != '<'
            && whole[i] != '>' && (white_space(whole[i]) ==> whole[i] == '\n' || whole[i] == ' '
            && (i > 0 ==> whole[i - 1] != ' ')) by {
            let at = i - start.len() - 1;
            if i < start.len() {
                assert(whole[i] == start[i]);
                if i > 0 {
                    assert(whole[i - 1] == start[i - 1]);
                }
            } else if at >= 0 {
                assert(whole[i] == last[at]);
                if at > 0 {
                    assert(whole[i - 1] == last[at - 1]);
                } else {
                    assert(whole[i - 1] == '\n');
                }
            }
        }
    }
}

/// The visible text of a page is its own visible text: stripping it again changes
/// nothing.
pub proof fn law_stripping_twice_is_stripping_once(html: Seq<char>)
    ensures
        visible_text(visible_text(html)) == visible_text(html),
{
    reveal_strlit("\n");
    let out = scanned(html, html.len() as int).out;
    lemma_scan_has_no_brackets(html, html.len() as int);
    lemma_collapsed_is_neat(out);
    let tidy = collapsed(out).0;
    lemma_pieces_are_neat(tidy);
    lemma_visible_pieces(tidy);
    let pieces = split_on(tidy, '\n');
    lemma_visible_lines_are_settled(pieces);
    let lines = visible_lines(pieces);
    let text = joined(lines, "\n"@);
    assert(visible_text(html) == text);
    if lines.len() == 0 {
        assert(text =~= Seq::empty());
        lemma_nothing_shown();
        assert(scanned(text, 0).out =~= Seq::empty());
    } else {
        lemma_joined_lines(lines);
        lemma_scan_of_text(text, text.len() as int);
        assert(text.take(text.len() as int) =~= text);
        lemma_neat_is_collapsed(text);
        lemma_visible_pieces(text);
        lemma_settled_lines_stay(lines);
    }
}

/// The characters of a text other than white space, in order.
pub open spec fn ink(s: Seq<char>) -> Seq<char>
    decreases s.len(),
{
    if s.len() == 0 {
        Seq::empty()
    } else if white_space(s.last()) {
        ink(s.drop_last())
    } else {
        ink(s.drop_last()).push(s.last())
    }
}

/// The characters of some texts other than white space, in order.
spec fn ink_of_all(parts: Seq<Seq<char>>) -> Seq<char>
    decreases parts.len(),
{
    if parts.len() == 0 {
        Seq::empty()
    } else {
        ink_of_all(parts.drop_last()) + ink(parts.last())
    }
}

proof fn lemma_ink_append(a: Seq<char>, b: Seq<char>)
    ensures
        ink(a + b) == ink(a) + ink(b),
    decreases b.len(),
{
    if b.len() == 0 {
        assert(a + b =~= a);
        assert(ink(a) + ink(b) =~= ink(a));
    } else {
        lemma_ink_append(a, b.drop_last());
        assert((a + b).drop_last() =~= a + b.drop_last());
        assert(ink(a + b) =~= ink(a) + ink(b));
    }
}

proof fn lemma_blank_has_no_ink(s: Seq<char>)
    requires
        forall|i: int| 0 <= i < s.len() ==> white_space(#[trigger] s[i]),
    ensures
        ink(s) == Seq::<char>::empty(),
    decreases s.len(),
{
    if s.len() > 0 {
        assert(white_space(s[s.len() - 1]));
        assert forall|i: int| 0 <= i < s.drop_last().len() implies white_space(
            #[trigger] s.drop_last()[i],
        ) by {
            assert(s.drop_last()[i] == s[i]);
        }
        lemma_blank_has_no_ink(s.drop_last());
    }
}

proof fn lemma_collapsing_keeps_the_ink(s: Seq<char>)
    ensures
        ink(collapsed(s).0) == ink(s),
    decreases s.len(),
{
    if s.len() > 0 {
        let rest = s.drop_last();
        lemma_collapsing_keeps_the_ink(rest);
        let out = collapsed(rest).0;
        assert(out.push(' ').drop_last() =~= out);
        assert(out.push(s.last()).drop_last() =~= out);
    }
}

proof fn lemma_trimming_keeps_the_ink(s: Seq<char>)
    ensures
        ink(trim_of(s)) == ink(s),
{
    let from = law_trimming_takes_the_white_space_around(s);
    let kept = trim_of(s);
    let before = s.take(from);
    let after = s.skip(from + kept.len());
    assert forall|i: int| 0 <= i < before.len() implies white_space(#[trigger] before[i]) by {
        assert(before[i] == s[i]);
    }
    assert forall|i: int| 0 <= i < after.len() implies white_space(#[trigger] after[i]) by {
        assert(after[i] == s[i + from + kept.len()]);
    }
    lemma_blank_has_no_ink(before);
    lemma_blank_has_no_ink(after);
    lemma_ink_append(before, kept);
    lemma_ink_append(before + kept, after);
    assert(s =~= before + kept + after);
    assert(ink(s) =~= ink(kept));
}

proof fn lemma_joining_keeps_the_ink(parts: Seq<Seq<char>>)
    ensures
        ink(joined(parts, "\n"@)) == ink_of_all(parts),
    decreases parts.len(),
{
    reveal_strlit("\n");
    if parts.len() == 1 {
        reveal_with_fuel(ink_of_all, 2);
        assert(parts.drop_last() =~= Seq::empty());
        assert(ink_of_all(parts) =~= ink(parts[0]));
    } else if parts.len() > 1 {
        let rest = parts.drop_last();
        lemma_joining_keeps_the_ink(rest);
        let start = joined(rest, "\n"@);
        assert(forall|i: int| 0 <= i < "\n"@.len() ==> white_space(#[trigger] "\n"@[i]));
        lemma_blank_has_no_ink("\n"@);
        lemma_ink_append(start, "\n"@);
        lemma_ink_append(start + "\n"@, parts.last());
        assert(ink(start) + ink("\n"@) =~= ink(start));
    }
}

proof fn lemma_same_ink(a: Seq<Seq<char>>, b: Seq<Seq<char>>)
    requires
        a.len() == b.len(),
        forall|i: int| 0 <= i < a.len() ==> ink(#[trigger] a[i]) == ink(b[i]),
    ensures
        ink_of_all(a) == ink_of_all(b),
    decreases a.len(),
{
    if a.len() > 0 {
        assert forall|i: int| 0 <= i < a.drop_last().len() implies ink(#[trigger] a.drop_last()[i])
            == ink(b.drop_last()[i]) by {
            assert(a.drop_last()[i] == a[i] && b.drop_last()[i] == b[i]);
        }
        lemma_same_ink(a.drop_last(), b.drop_last());
        assert(ink(a[a.len() - 1]) == ink(b[a.len() - 1]));
    }
}

proof fn lemma_lines_keep_the_ink(s: Seq<char>)
    ensures
        ink_of_all(lines_of(s)) == ink(s),
{
    reveal_strlit("\n");
    let pieces = split_on(s, '\n');
    law_pieces_make_up_the_text(s, '\n');
    lemma_joining_keeps_the_ink(pieces);
    assert("\n"@ =~= seq!['\n']);
    let ended = Seq::new((pieces.len() - 1) as nat, |i: int| strip_return(pieces[i]));
    let stripped = ended.push(pieces.last());
    assert forall|i: int| 0 <= i < stripped.len() implies ink(#[trigger] stripped[i]) == ink(
        pieces[i],
    ) by {
        if i < ended.len() {
            assert(stripped[i] == strip_return(pieces[i]));
        }
    }
    lemma_same_ink(stripped, pieces);
    assert(stripped.drop_last() =~= ended);
    if pieces.last().len() == 0 {
        assert(ink_of_all(ended) + ink(pieces.last()) =~= ink_of_all(ended));
    }
}

proof fn lemma_visible_lines_keep_the_ink(all: Seq<Seq<char>>)
    ensures
        ink_of_all(visible_lines(all)) == ink_of_all(all),
    decreases all.len(),
{
    if all.len() > 0 {
        let before = visible_lines(all.drop_last());
        lemma_visible_lines_keep_the_ink(all.drop_last());
        lemma_trimming_keeps_the_ink(all.last());
        let line = trim_of(all.last());
        if line.len() == 0 {
            assert(ink_of_all(before) + ink(line) =~= ink_of_all(before));
        } else {
            assert(before.push(line).drop_last() =~= before);
        }
    }
}

/// Of text without markup nothing is lost and nothing is added: its visible text
/// has the same characters in the same order, white space aside.
pub proof fn law_plain_text_is_shown_whole(text: Seq<char>)
    requires
        !text.contains('<'),
        !text.contains('>'),
    ensures
        ink(visible_text(text)) == ink(text),
{
    assert forall|i: int| 0 <= i < text.len() implies (#[trigger] text[i]) != '<' && text[i]
        != '>' by {
        assert(text.contains(text[i]));
    }
    lemma_scan_of_text(text, text.len() as int);
    assert(text.take(text.len() as int) =~= text);
    let tidy = collapsed(text).0;
    lemma_collapsing_keeps_the_ink(text);
    lemma_lines_keep_the_ink(tidy);
    lemma_visible_lines_keep_the_ink(lines_of(tidy));
    lemma_joining_keeps_the_ink(visible_lines(lines_of(tidy)));
}

/// Lines without markup and without needless white space are shown as they are,
/// each on its own line.
pub proof fn law_neat_lines_are_shown_as_they_are(lines: Seq<Seq<char>>)
    requires
        lines.len() > 0,
        forall|i: int|
            0 <= i < lines.len() ==> (#[trigger] lines[i]).len() > 0 && !white_space(lines[i][0])
                && !white_space(lines[i].last()),
        forall|i: int, j: int|
            0 <= i < lines.len() && 0 <= j < lines[i].len() ==> (#[trigger] lines[i][j]) != '<'
                && lines[i][j] != '>' && (white_space(lines[i][j]) ==> lines[i][j] == ' '
                && lines[i][j - 1] != ' '),
    ensures
        visible_text(joined(lines, "\n"@)) == joined(lines, "\n"@),
{
    reveal_strlit("\n");
    assert forall|i: int| 0 <= i < lines.len() implies settled(#[trigger] lines[i]) by {
        let line = lines[i];
        assert forall|j: int| 0 <= j < line.len() implies (#[trigger] line[j]) != '<' && line[j]
            != '>' && (white_space(line[j]) ==> line[j] == '\n' || line[j] == ' ' && (j > 0
            ==> line[j - 1] != ' ')) by {
            assert(lines[i][j] != '<');
        }
        if line.contains('\n') {
            let k = choose|k: int| 0 <= k < line.len() && line[k] == '\n';
            assert(lines[i][k] == '\n');
        }
    }
    let text = joined(lines, "\n"@);
    lemma_joined_lines(lines);
    lemma_scan_of_text(text, text.len() as int);
    assert(text.take(text.len() as int) =~= text);
    lemma_neat_is_collapsed(text);
    lemma_visible_pieces(text);
    lemma_settled_lines_stay(lines);
}

/// The name of a tag is its first word, up to `>` or a space, with its capital
/// letters made small; whatever follows does not count.
pub proof fn law_tag_names_are_the_first_word(word: Seq<char>, rest: Seq<char>)
    requires
        !word.contains('>'),
        !word.contains(' '),
        rest.len() == 0 || rest[0] == '>' || rest[0] == ' ',
    ensures
        tag_name(word + rest) == ascii_lower_text(word),
    decreases word.len(),
{
    if word.len() == 0 {
        assert(word + rest =~= rest);
        assert(ascii_lower_text(word) =~= Seq::empty());
    } else {
        let more = word.skip(1);
        assert(word.contains(word[0]));
        if more.contains('>') {
            let k = choose|k: int| 0 <= k < more.len() && more[k] == '>';
            assert(word[k + 1] == '>');
        }
        if more.contains(' ') {
            let k = choose|k: int| 0 <= k < more.len() && more[k] == ' ';
            assert(word[k + 1] == ' ');
        }
        law_tag_names_are_the_first_word(more, rest);
        assert((word + rest).skip(1) =~= more + rest);
        assert(ascii_lower_text(word) =~= seq![ascii_lower(word[0])] + ascii_lower_text(more));
    }
}

/// Whether an element begins a new line both where it opens and where it ends.
pub open spec fn block_element(name: Seq<char>) -> bool {
    ||| name == "p"@
    ||| name == "div"@
    ||| name == "tr"@
    ||| name == "li"@
    ||| name.len() == 2 && name[0] == 'h' && '1' <= name[1] <= '6'
    ||| name == "blockquote"@
    ||| name == "pre"@
    ||| name == "table"@
    ||| name == "ol"@
    ||| name == "ul"@
    ||| name == "title"@
}

proof fn lemma_end_tag(name: Seq<char>, element: Seq<char>, end: Seq<char>)
    requires
        end.len() == element.len() + 1,
        end[0] == '/',
        end.skip(1) =~= element,
    ensures
        name == end <==> name.len() > 0 && name[0] == '/' && name.skip(1) == element,
{
    if name.len() > 0 && name[0] == '/' && name.skip(1) == element {
        assert(name =~= seq!['/'] + name.skip(1));
        assert(end =~= seq!['/'] + end.skip(1));
    }
}

proof fn lemma_headings(name: Seq<char>)
    ensures
        (name == "h1"@ || name == "h2"@ || name == "h3"@ || name == "h4"@ || name == "h5"@ || name
            == "h6"@) <==> name.len() == 2 && name[0] == 'h' && '1' <= name[1] <= '6',
{
    reveal_strlit("h1");
    reveal_strlit("h2");
    reveal_strlit("h3");
    reveal_strlit("h4");
    reveal_strlit("h5");
    reveal_strlit("h6");
    assert(name == "h1"@ <==> name.len() == 2 && name[0] == 'h' && name[1] == '1') by {
        if name.len() == 2 && name[0] == 'h' && name[1] == '1' {
            assert(name =~= "h1"@);
        }
    }
    assert(name == "h2"@ <==> name.len() == 2 && name[0] == 'h' && name[1] == '2') by {
        if name.len() == 2 && name[0] == 'h' && name[1] == '2' {
            assert(name =~= "h2"@);
        }
    }
    assert(name == "h3"@ <==> name.len() == 2 && name[0] == 'h' && name[1] == '3') by {
        if name.len() == 2 && name[0] == 'h' && name[1] == '3' {
            assert(name =~= "h3"@);
        }
    }
    assert(name == "h4"@ <==> name.len() == 2 && name[0] == 'h' && name[1] == '4') by {
        if name.len() == 2 && name[0] == 'h' && name[1] == '4' {
            assert(name =~= "h4"@);
        }
    }
    assert(name == "h5"@ <==> name.len() == 2 && name[0] == 'h' && name[1] == '5') by {
        if name.len() == 2 && name[0] == 'h' && name[1] == '5' {
            assert(name =~= "h5"@);
        }
    }
    assert(name == "h6"@ <==> name.len() == 2 && name[0] == 'h' && name[1] == '6') by {
        if name.len() == 2 && name[0] == 'h' && name[1] == '6' {
            assert(name =~= "h6"@);
        }
    }
}

/// A new line begins at line breaks and rules, and where a paragraph, a heading, a
/// list or its item, a table or its row, a quotation, a preformatted part, a title
/// or a division opens or ends; at no other tag.
pub proof fn law_block_tags_open_and_end(name: Seq<char>)
    ensures
        block_tag(name) <==> name == "br"@ || name == "hr"@ || block_element(name) || name.len() > 0
            && name[0] == '/' && block_element(name.skip(1)),
{
    reveal_strlit("p");
    reveal_strlit("/p");
    reveal_strlit("div");
    reveal_strlit("/div");
    reveal_strlit("tr");
    reveal_strlit("/tr");
    reveal_strlit("li");
    reveal_strlit("/li");
    reveal_strlit("h1");
    reveal_strlit("/h1");
    reveal_strlit("h2");
    reveal_strlit("/h2");
    reveal_strlit("h3");
    reveal_strlit("/h3");
    reveal_strlit("h4");
    reveal_strlit("/h4");
    reveal_strlit("h5");
    reveal_strlit("/h5");
    reveal_strlit("h6");
    reveal_strlit("/h6");
    reveal_strlit("blockquote");
    reveal_strlit("/blockquote");
    reveal_strlit("pre");
    reveal_strlit("/pre");
    reveal_strlit("table");
    reveal_strlit("/table");
    reveal_strlit("ol");
    reveal_strlit("/ol");
    reveal_strlit("ul");
    reveal_strlit("/ul");
    reveal_strlit("title");
    reveal_strlit("/title");
    lemma_end_tag(name, "p"@, "/p"@);
    lemma_end_tag(name, "div"@, "/div"@);
    lemma_end_tag(name, "tr"@, "/tr"@);
    lemma_end_tag(name, "li"@, "/li"@);
    lemma_end_tag(name, "h1"@, "/h1"@);
    lemma_end_tag(name, "h2"@, "/h2"@);
    lemma_end_tag(name, "h3"@, "/h3"@);
    lemma_end_tag(name, "h4"@, "/h4"@);
    lemma_end_tag(name, "h5"@, "/h5"@);
    lemma_end_tag(name, "h6"@, "/h6"@);
    lemma_end_tag(name, "blockquote"@, "/blockquote"@);
    lemma_end_tag(name, "pre"@, "/pre"@);
    lemma_end_tag(name, "table"@, "/table"@);
    lemma_end_tag(name, "ol"@, "/ol"@);
    lemma_end_tag(name, "ul"@, "/ul"@);
    lemma_end_tag(name, "title"@, "/title"@);
    lemma_headings(name);
    if name.len() > 0 {
        lemma_headings(name.skip(1));
    }
}

} // verus!
