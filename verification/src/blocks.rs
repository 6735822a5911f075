//! Turning the small HTML dialect of app descriptions and stories into a flat
//! list of text, heading, list, image and app blocks.

use vstd::prelude::*;
use crate::text::{
    find_from,
    has_prefix, has_suffix, find_seq, find_char, contains_seq, trim, ascii_lower, ascii_lower_char,
    strip_all_prefix, strip_all_suffix, chars_of, string_of, slice_to_vec, find, find_ch,
    trim_exec, starts_with, ends_with, seq_eq, push_all, push_str, lemma_find_from_bounds,
    occurs_at, occurs_at_exec, str_eq,
};

verus! {

/// One block of a description.
#[derive(Debug)]
pub struct DescBlock {
    pub text: String,
    pub is_list_item: bool,
    pub is_heading: bool,
    pub is_bold: bool,
    pub is_image: bool,
    pub image_url: String,
    pub is_app: bool,
    pub app_id: String,
    pub app_name: String,
    pub app_summary: String,
    pub app_icon_url: String,
}

/// A block with its strings taken as text.
pub struct BlockView {
    pub text: Seq<char>,
    pub is_list_item: bool,
    pub is_heading: bool,
    pub is_bold: bool,
    pub is_image: bool,
    pub image_url: Seq<char>,
    pub is_app: bool,
    pub app_id: Seq<char>,
    pub app_name: Seq<char>,
    pub app_summary: Seq<char>,
    pub app_icon_url: Seq<char>,
}

impl DescBlock {
    /// The block with its strings taken as text.
    pub open spec fn view(self) -> BlockView {
        BlockView {
            text: self.text@,
            is_list_item: self.is_list_item,
            is_heading: self.is_heading,
            is_bold: self.is_bold,
            is_image: self.is_image,
            image_url: self.image_url@,
            is_app: self.is_app,
            app_id: self.app_id@,
            app_name: self.app_name@,
            app_summary: self.app_summary@,
            app_icon_url: self.app_icon_url@,
        }
    }
}

/// The views of a list of blocks.
pub open spec fn blocks_view(v: Seq<DescBlock>) -> Seq<BlockView> {
    v.map_values(|b: DescBlock| b.view())
}

/// A text block.
pub open spec fn text_view(text: Seq<char>, is_list_item: bool, is_heading: bool, is_bold: bool) -> BlockView {
    BlockView {
        text,
        is_list_item,
        is_heading,
        is_bold,
        is_image: false,
        image_url: seq![],
        is_app: false,
        app_id: seq![],
        app_name: seq![],
        app_summary: seq![],
        app_icon_url: seq![],
    }
}

/// An image block with its alternative text.
pub open spec fn image_view(alt: Seq<char>, src: Seq<char>) -> BlockView {
    BlockView { is_image: true, image_url: src, ..text_view(alt, false, false, false) }
}

/// A block that stands for an app.
pub open spec fn app_view(id: Seq<char>) -> BlockView {
    BlockView { is_app: true, app_id: id, ..text_view(seq![], false, false, false) }
}

/// Text with the entities `&amp;`, `&lt;`, `&gt;`, `&quot;` and `&apos;`
/// replaced by their characters; any other `&` stays as it is.
pub open spec fn decode(s: Seq<char>) -> Seq<char>
    decreases s.len(),
{
    if s.len() == 0 {
        seq![]
    } else if s[0] != '&' {
        seq![s[0]] + decode(s.skip(1))
    } else if has_prefix(s, "&amp;"@) && "&amp;"@.len() > 0 {
        seq!['&'] + decode(s.skip("&amp;"@.len() as int))
    } else if has_prefix(s, "&lt;"@) && "&lt;"@.len() > 0 {
        seq!['<'] + decode(s.skip("&lt;"@.len() as int))
    } else if has_prefix(s, "&gt;"@) && "&gt;"@.len() > 0 {
        seq!['>'] + decode(s.skip("&gt;"@.len() as int))
    } else if has_prefix(s, "&quot;"@) && "&quot;"@.len() > 0 {
        seq!['"'] + decode(s.skip("&quot;"@.len() as int))
    } else if has_prefix(s, "&apos;"@) && "&apos;"@.len() > 0 {
        seq!['\''] + decode(s.skip("&apos;"@.len() as int))
    } else {
        seq!['&'] + decode(s.skip(1))
    }
}

/// Appends `text` with its entities decoded to `out`.
pub fn push_decoded(text: &[char], out: &mut Vec<char>)
    ensures
        final(out)@ == old(out)@ + decode(text@),
{
    let amp = chars_of("&amp;");
    let lt = chars_of("&lt;");
    let gt = chars_of("&gt;");
    let quot = chars_of("&quot;");
    let apos = chars_of("&apos;");
    let mut i: usize = 0;
    assert(text@.skip(0) =~= text@);
    while i < text.len()
        invariant
            i <= text.len(),
            amp@ == "&amp;"@,
            lt@ == "&lt;"@,
            gt@ == "&gt;"@,
            quot@ == "&quot;"@,
            apos@ == "&apos;"@,
            old(out)@ + decode(text@) == out@ + decode(text@.skip(i as int)),
        decreases text.len() - i,
    {
        let ghost r = text@.skip(i as int);
        proof {
            assert forall|p: Seq<char>| occurs_at(text@, p, i as int) == has_prefix(r, p) by {
                if p.len() <= r.len() {
                    assert(r.subrange(0, p.len() as int) =~= text@.subrange(i as int, i + p.len()));
                }
            }
        }
        let c = text[i];
        let step: usize;
        if c != '&' {
            out.push(c);
            step = 1;
        } else if amp.len() > 0 && occurs_at_exec(text, &amp, i) {
            out.push('&');
            step = amp.len();
        } else if lt.len() > 0 && occurs_at_exec(text, &lt, i) {
            out.push('<');
            step = lt.len();
        } else if gt.len() > 0 && occurs_at_exec(text, &gt, i) {
            out.push('>');
            step = gt.len();
        } else if quot.len() > 0 && occurs_at_exec(text, &quot, i) {
            out.push('"');
            step = quot.len();
        } else if apos.len() > 0 && occurs_at_exec(text, &apos, i) {
            out.push('\'');
            step = apos.len();
        } else {
            out.push('&');
            step = 1;
        }
        proof {
            assert(r[0] == c);
            assert(r.skip(step as int) =~= text@.skip(i + step));
        }
        i = i + step;
    }
    assert(text@.skip(i as int) =~= Seq::<char>::empty());
}


/// A text block.
pub fn text_block(text: String, is_list_item: bool, is_heading: bool, is_bold: bool) -> (r: DescBlock)
    ensures
        r.view() == text_view(text@, is_list_item, is_heading, is_bold),
{
    DescBlock {
        text,
        is_list_item,
        is_heading,
        is_bold,
        is_image: false,
        image_url: String::new(),
        is_app: false,
        app_id: String::new(),
        app_name: String::new(),
        app_summary: String::new(),
        app_icon_url: String::new(),
    }
}

/// The blocks of a text whose `**`-delimited runs are bold: plain runs and
/// bold runs alternate; empty runs are left out, except that text running out
/// right after an opening `**` still gives a (possibly empty) plain block.
pub open spec fn bold_pieces(r: Seq<char>, li: bool, h: bool) -> Seq<BlockView>
    decreases r.len(),
{
    if r.len() == 0 {
        seq![]
    } else {
        match find_seq(r, "**"@) {
            None => seq![text_view(r, li, h, false)],
            Some(s) => if 0 <= s && s + "**"@.len() <= r.len() && "**"@.len() > 0 {
                let lead = if s > 0 {
                    seq![text_view(r.take(s), li, h, false)]
                } else {
                    seq![]
                };
                let r2 = r.skip(s + "**"@.len());
                lead + match find_seq(r2, "**"@) {
                    None => seq![text_view(r2, li, h, false)],
                    Some(e) => if 0 <= e && e + "**"@.len() <= r2.len() {
                        (if e > 0 {
                            seq![text_view(r2.take(e), li, h, true)]
                        } else {
                            seq![]
                        }) + bold_pieces(r2.skip(e + "**"@.len()), li, h)
                    } else {
                        seq![]
                    },
                }
            } else {
                seq![]
            },
        }
    }
}

/// The blocks of a paragraph: one plain block for a heading or for text
/// without `**`, else its plain and bold runs.
pub open spec fn spec_split_bold(text: Seq<char>, li: bool, h: bool) -> Seq<BlockView> {
    if h || !contains_seq(text, "**"@) {
        seq![text_view(text, li, h, false)]
    } else {
        bold_pieces(text, li, h)
    }
}

/// Pushing a block pushes its view.
pub proof fn lemma_blocks_push(v: Seq<DescBlock>, b: DescBlock)
    ensures
        blocks_view(v.push(b)) == blocks_view(v).push(b.view()),
{
    assert(blocks_view(v.push(b)) =~= blocks_view(v).push(b.view()));
}

/// Appending blocks appends their views.
pub proof fn lemma_blocks_add(v: Seq<DescBlock>, w: Seq<DescBlock>)
    ensures
        blocks_view(v + w) == blocks_view(v) + blocks_view(w),
{
    assert(blocks_view(v + w) =~= blocks_view(v) + blocks_view(w));
}

/// Splits a paragraph into plain and bold blocks.
pub fn split_bold(text: String, is_list_item: bool, is_heading: bool) -> (r: Vec<DescBlock>)
    ensures
        blocks_view(r@) == spec_split_bold(text@, is_list_item, is_heading),
{
    let tv = chars_of(text.as_str());
    let star = chars_of("**");
    proof { reveal_strlit("**"); }
    if is_heading || find(&tv, &star).is_none() {
        let mut r: Vec<DescBlock> = Vec::new();
        let b = text_block(text, is_list_item, is_heading, false);
        proof { lemma_blocks_push(r@, b); }
        r.push(b);
        assert(blocks_view(r@) =~= seq![text_view(text@, is_list_item, is_heading, false)]);
        return r;
    }
    let mut result: Vec<DescBlock> = Vec::new();
    let mut rem = tv;
    assert(blocks_view(result@) =~= Seq::<BlockView>::empty());
    while rem.len() > 0
        invariant
            star@ == "**"@,
            star@.len() == 2,
            spec_split_bold(text@, is_list_item, is_heading) == blocks_view(result@) + bold_pieces(
                rem@,
                is_list_item,
                is_heading,
            ),
        ensures
            rem.len() == 0,
            spec_split_bold(text@, is_list_item, is_heading) == blocks_view(result@) + bold_pieces(
                rem@,
                is_list_item,
                is_heading,
            ),
        decreases rem.len(),
    {
        let ghost before = result@;
        let ghost r = rem@;
        match find(&rem, &star) {
            None => {
                let b = text_block(string_of(&rem), is_list_item, is_heading, false);
                proof { lemma_blocks_push(result@, b); }
                result.push(b);
                assert(bold_pieces(r, is_list_item, is_heading) =~= seq![b.view()]);
                assert(blocks_view(result@) + bold_pieces(Seq::<char>::empty(), is_list_item, is_heading)
                    =~= blocks_view(result@));
                rem = Vec::new();
                assert(bold_pieces(rem@, is_list_item, is_heading) =~= Seq::<BlockView>::empty());
                break;
            },
            Some(start) => {
                proof { lemma_find_from_bounds(r, star@, 0); }
                if start > 0 {
                    let lead = slice_to_vec(&rem, 0, start);
                    let b = text_block(string_of(&lead), is_list_item, is_heading, false);
                    proof { lemma_blocks_push(result@, b); }
                    assert(lead@ =~= r.take(start as int));
                    result.push(b);
                }
                let ghost lead_v = if start > 0 {
                    seq![text_view(r.take(start as int), is_list_item, is_heading, false)]
                } else {
                    Seq::<BlockView>::empty()
                };
                assert(blocks_view(result@) =~= blocks_view(before) + lead_v);
                let ghost mid = result@;
                let r2 = slice_to_vec(&rem, start + star.len(), rem.len());
                assert(r2@ =~= r.skip(start + star@.len()));
                match find(&r2, &star) {
                    None => {
                        let b = text_block(string_of(&r2), is_list_item, is_heading, false);
                        proof { lemma_blocks_push(result@, b); }
                        result.push(b);
                        assert(bold_pieces(r, is_list_item, is_heading) == lead_v + seq![
                            text_view(r2@, is_list_item, is_heading, false)]);
                        assert(blocks_view(result@) + bold_pieces(Seq::<char>::empty(), is_list_item,
                            is_heading) =~= blocks_view(before) + bold_pieces(r, is_list_item, is_heading));
                        rem = Vec::new();
                        assert(bold_pieces(rem@, is_list_item, is_heading) =~= Seq::<BlockView>::empty());
                        break;
                    },
                    Some(end) => {
                        proof { lemma_find_from_bounds(r2@, star@, 0); }
                        let ghost bold_v = if end > 0 {
                            seq![text_view(r2@.take(end as int), is_list_item, is_heading, true)]
                        } else {
                            Seq::<BlockView>::empty()
                        };
                        if end > 0 {
                            let bold = slice_to_vec(&r2, 0, end);
                            let b = text_block(string_of(&bold), is_list_item, is_heading, true);
                            proof { lemma_blocks_push(result@, b); }
                            assert(bold@ =~= r2@.take(end as int));
                            result.push(b);
                        }
                        let next = slice_to_vec(&r2, end + star.len(), r2.len());
                        assert(next@ =~= r2@.skip(end + star@.len()));
                        assert(blocks_view(result@) =~= blocks_view(mid) + bold_v);
                        assert(bold_pieces(r, is_list_item, is_heading) == lead_v + (bold_v
                            + bold_pieces(next@, is_list_item, is_heading)));
                        assert(blocks_view(result@) + bold_pieces(next@, is_list_item, is_heading)
                            =~= blocks_view(before) + bold_pieces(r, is_list_item, is_heading));
                        rem = next;
                    },
                }
            },
        }
    }
    assert(blocks_view(result@) + bold_pieces(rem@, is_list_item, is_heading) =~= blocks_view(
        result@,
    ));
    result
}


/// `tag` with ASCII letters lower-cased.
pub fn ascii_lower_exec(tag: &[char]) -> (r: Vec<char>)
    ensures
        r@ == ascii_lower(tag@),
{
    let mut r: Vec<char> = Vec::new();
    let mut i: usize = 0;
    while i < tag.len()
        invariant
            i <= tag.len(),
            r@ == ascii_lower(tag@.take(i as int)),
        decreases tag.len() - i,
    {
        let c = tag[i];
        let l = if 'A' <= c && c <= 'Z' {
            char_from_u32_lower(c)
        } else {
            c
        };
        r.push(l);
        assert(ascii_lower(tag@.take(i + 1)) =~= ascii_lower(tag@.take(i as int)).push(
            ascii_lower_char(tag@[i as int]),
        ));
        i = i + 1;
    }
    assert(tag@.take(tag.len() as int) =~= tag@);
    r
}

/// The lower-case letter for an ASCII upper-case letter.
fn char_from_u32_lower(c: char) -> (r: char)
    requires
        'A' <= c && c <= 'Z',
    ensures
        r == ascii_lower_char(c),
{
    let u = (c as u32) + 32;
    assert(0x61 <= u && u <= 0x7a);
    let b = u as u8;
    b as char
}

/// The value of attribute `name` in the text of a tag: what stands between
/// `name="` (found ignoring ASCII case) and the next `"`; empty when absent.
pub open spec fn spec_attr(tag: Seq<char>, name: Seq<char>) -> Seq<char> {
    let needle = name + "=\""@;
    match find_seq(ascii_lower(tag), needle) {
        Some(p) => if 0 <= p && p + needle.len() <= tag.len() {
            let after = tag.skip(p + needle.len());
            match find_char(after, '"') {
                Some(e) => if 0 <= e <= after.len() {
                    after.take(e)
                } else {
                    seq![]
                },
                None => seq![],
            }
        } else {
            seq![]
        },
        None => seq![],
    }
}

/// The value of an attribute of a tag.
fn attr_chars(tag: &[char], name: &str) -> (r: Vec<char>)
    ensures
        r@ == spec_attr(tag@, name@),
{
    let mut needle: Vec<char> = Vec::new();
    push_str(&mut needle, name);
    push_str(&mut needle, "=\"");
    let lower = ascii_lower_exec(tag);
    match find(&lower, &needle) {
        Some(p) => {
            proof { lemma_find_from_bounds(lower@, needle@, 0); }
            assert(lower@.len() == tag@.len());
            assert(find_from(lower@, needle@, 0) == Some(p as int));
            assert(p + needle@.len() <= lower@.len());
            assert(needle.len() == needle@.len());
            assert(tag.len() == tag@.len());
            assert((p as int) + (needle.len() as int) <= tag.len() as int);
            let after = slice_to_vec(tag, p + needle.len(), tag.len());
            assert(after@ =~= tag@.skip(p + needle@.len()));
            match find_ch(&after, '"') {
                Some(e) => {
                    proof { lemma_find_from_bounds(after@, seq!['"'], 0); }
                    let v = slice_to_vec(&after, 0, e);
                    assert(v@ =~= after@.take(e as int));
                    v
                },
                None => Vec::new(),
            }
        },
        None => Vec::new(),
    }
}

/// The value of an attribute of a tag.
pub fn attr_from_tag(tag: &str, name: &str) -> (r: String)
    ensures
        r@ == spec_attr(tag@, name@),
{
    string_of(&attr_chars(&chars_of(tag), name))
}

/// A `=== Heading ===` paragraph's heading text.
pub open spec fn spec_parse_heading(s: Seq<char>) -> Option<Seq<char>> {
    let t = trim(s);
    if has_prefix(t, "==="@) && has_suffix(t, "==="@) && t.len() > 6 {
        Some(trim(strip_all_suffix(strip_all_prefix(t, seq!['=']), seq!['='])))
    } else {
        None
    }
}

/// The heading text of a paragraph written as `=== Heading ===`. (The length
/// test counts characters; for text that starts and ends with `===` that is
/// the same as counting bytes.)
pub fn parse_heading(s: &str) -> (r: Option<String>)
    ensures
        opt_view_s(r) == spec_parse_heading(s@),
{
    let t = trim_exec(&chars_of(s));
    let eq3 = chars_of("===");
    if starts_with(&t, &eq3) && ends_with(&t, &eq3) && t.len() > 6 {
        let a = strip_all_char_prefix(&t, '=');
        let b = strip_all_char_suffix(&a, '=');
        Some(string_of(&trim_exec(&b)))
    } else {
        None
    }
}

/// The text of an optional string.
pub open spec fn opt_view_s(o: Option<String>) -> Option<Seq<char>> {
    match o {
        Some(s) => Some(s@),
        None => None,
    }
}

/// `s` without leading `c`s.
fn strip_all_char_prefix(s: &[char], c: char) -> (r: Vec<char>)
    ensures
        r@ == strip_all_prefix(s@, seq![c]),
{
    let mut i: usize = 0;
    assert(s@.skip(0) =~= s@);
    while i < s.len() && s[i] == c
        invariant
            i <= s.len(),
            strip_all_prefix(s@, seq![c]) == strip_all_prefix(s@.skip(i as int), seq![c]),
        decreases s.len() - i,
    {
        assert(s@.skip(i as int).subrange(0, 1) =~= seq![c]);
        assert(s@.skip(i as int).skip(1) =~= s@.skip(i + 1));
        i = i + 1;
    }
    proof {
        if i < s.len() {
            assert(s@.skip(i as int)[0] != c);
            assert(s@.skip(i as int).subrange(0, 1)[0] != seq![c][0]);
        }
    }
    let r = slice_to_vec(s, i, s.len());
    assert(r@ =~= s@.skip(i as int));
    r
}

/// `s` without trailing `c`s.
fn strip_all_char_suffix(s: &[char], c: char) -> (r: Vec<char>)
    ensures
        r@ == strip_all_suffix(s@, seq![c]),
{
    let mut j: usize = s.len();
    assert(s@.take(j as int) =~= s@);
    while j > 0 && s[j - 1] == c
        invariant
            j <= s.len(),
            strip_all_suffix(s@, seq![c]) == strip_all_suffix(s@.take(j as int), seq![c]),
        decreases j,
    {
        let ghost p = s@.take(j as int);
        assert(p.subrange(p.len() - 1, p.len() as int) =~= seq![c]);
        assert(p.take(p.len() - 1) =~= s@.take(j - 1));
        j = j - 1;
    }
    proof {
        let p = s@.take(j as int);
        if j > 0 {
            assert(p[p.len() - 1] != c);
            assert(p.subrange(p.len() - 1, p.len() as int)[0] != seq![c][0]);
        }
    }
    let r = slice_to_vec(s, 0, j);
    assert(r@ =~= s@.take(j as int));
    r
}


/// ASCII white space, as `split_ascii_whitespace` splits on.
pub open spec fn is_ascii_space(c: char) -> bool {
    c == ' ' || c == '\t' || c == '\n' || c == '\x0C' || c == '\r'
}

/// The leading run of non-ASCII-space characters.
pub open spec fn ascii_word_at(s: Seq<char>) -> Seq<char>
    decreases s.len(),
{
    if s.len() == 0 || is_ascii_space(s[0]) {
        seq![]
    } else {
        seq![s[0]] + ascii_word_at(s.skip(1))
    }
}

/// The first ASCII-space separated word of `s`; empty when there is none.
pub open spec fn first_ascii_word(s: Seq<char>) -> Seq<char>
    decreases s.len(),
{
    if s.len() == 0 {
        seq![]
    } else if is_ascii_space(s[0]) {
        first_ascii_word(s.skip(1))
    } else {
        ascii_word_at(s)
    }
}

/// The lower-cased element name of a tag's text (leading `/`s dropped).
pub open spec fn tag_name(raw: Seq<char>) -> Seq<char> {
    ascii_lower(first_ascii_word(strip_all_prefix(raw, seq!['/'])))
}

/// Whether `c` is ASCII white space.
fn is_ascii_space_exec(c: char) -> (r: bool)
    ensures
        r == is_ascii_space(c),
{
    c == ' ' || c == '\t' || c == '\n' || c == '\x0C' || c == '\r'
}

/// The lower-cased element name of a tag's text.
fn tag_name_exec(raw: &[char]) -> (r: Vec<char>)
    ensures
        r@ == tag_name(raw@),
{
    let s = strip_all_char_prefix(raw, '/');
    let mut i: usize = 0;
    assert(s@.skip(0) =~= s@);
    while i < s.len() && is_ascii_space_exec(s[i])
        invariant
            i <= s.len(),
            first_ascii_word(s@) == first_ascii_word(s@.skip(i as int)),
        decreases s.len() - i,
    {
        assert(s@.skip(i as int).skip(1) =~= s@.skip(i + 1));
        i = i + 1;
    }
    let mut j = i;
    let ghost rest = s@.skip(i as int);
    while j < s.len() && !is_ascii_space_exec(s[j])
        invariant
            i <= j <= s.len(),
            rest == s@.skip(i as int),
            ascii_word_at(rest) == s@.subrange(i as int, j as int) + ascii_word_at(s@.skip(j as int)),
        decreases s.len() - j,
    {
        assert(s@.skip(j as int).skip(1) =~= s@.skip(j + 1));
        assert(s@.subrange(i as int, j + 1) =~= s@.subrange(i as int, j as int) + seq![s@[j as int]]);
        j = j + 1;
    }
    proof {
        assert(ascii_word_at(s@.skip(j as int)) =~= Seq::<char>::empty());
        assert(ascii_word_at(rest) =~= s@.subrange(i as int, j as int));
        if i < s.len() {
            assert(first_ascii_word(rest) == ascii_word_at(rest));
        } else {
            assert(rest =~= Seq::<char>::empty());
        }
    }
    let w = slice_to_vec(&s, i, j);
    ascii_lower_exec(&w)
}

/// The blocks and the pending text after a tag: what the tag closes is turned
/// into blocks, and images and app references become blocks of their own.
pub open spec fn on_tag(blocks: Seq<BlockView>, cur: Seq<char>, raw: Seq<char>) -> (Seq<BlockView>, Seq<char>) {
    let closing = raw.len() > 0 && raw[0] == '/';
    let name = tag_name(raw);
    let t = trim(cur);
    let flushed = if t.len() > 0 {
        (blocks + spec_split_bold(t, false, false), Seq::<char>::empty())
    } else {
        (blocks, cur)
    };
    if !closing && name == "li"@ {
        (if t.len() > 0 { blocks + spec_split_bold(t, false, false) } else { blocks }, seq![])
    } else if closing && name == "li"@ {
        (if t.len() > 0 { blocks + spec_split_bold(t, true, false) } else { blocks }, seq![])
    } else if closing && (name == "p"@ || name == "figcaption"@) {
        (if t.len() > 0 {
            match spec_parse_heading(t) {
                Some(h) => blocks.push(text_view(h, false, true, false)),
                None => blocks + spec_split_bold(t, false, false),
            }
        } else {
            blocks
        }, seq![])
    } else if closing && (name == "h1"@ || name == "h2"@ || name == "h3"@) {
        (if t.len() > 0 { blocks.push(text_view(t, false, true, false)) } else { blocks }, seq![])
    } else if !closing && name == "app"@ {
        let id = spec_attr(raw, "id"@);
        (if id.len() > 0 { flushed.0.push(app_view(id)) } else { flushed.0 }, flushed.1)
    } else if name == "img"@ {
        let src = spec_attr(raw, "src"@);
        (if src.len() > 0 {
            flushed.0.push(image_view(spec_attr(raw, "alt"@), src))
        } else {
            flushed.0
        }, flushed.1)
    } else if closing && name == "figure"@ {
        flushed
    } else {
        (blocks, cur)
    }
}

/// A closing `</h1>`, `</h2>` or `</h3>` tag ends a heading: when the pending
/// text is not blank it adds exactly one block, a heading (not a list item,
/// not bold, no image, no app) holding that text trimmed, after the blocks
/// before it; either way no text is left pending.
pub proof fn law_heading_tag_closes(blocks: Seq<BlockView>, cur: Seq<char>, raw: Seq<char>)
    requires
        raw.len() > 0,
        raw[0] == '/',
        tag_name(raw) == "h1"@ || tag_name(raw) == "h2"@ || tag_name(raw) == "h3"@,
    ensures
        on_tag(blocks, cur, raw).1 == Seq::<char>::empty(),
        trim(cur).len() == 0 ==> on_tag(blocks, cur, raw).0 == blocks,
        trim(cur).len() > 0 ==> {
            let out = on_tag(blocks, cur, raw).0;
            &&& out.len() == blocks.len() + 1
            &&& out.take(blocks.len() as int) == blocks
            &&& out.last().text == trim(cur)
            &&& out.last().is_heading
            &&& !out.last().is_list_item
            &&& !out.last().is_bold
            &&& !out.last().is_image
            &&& !out.last().is_app
        },
{
    reveal_strlit("h1");
    reveal_strlit("h2");
    reveal_strlit("h3");
    reveal_strlit("li");
    reveal_strlit("p");
    reveal_strlit("figcaption");
    let name = tag_name(raw);
    assert(name != "li"@) by {
        assert(name.len() == 2 && "li"@.len() == 2);
        assert(name[0] == 'h' && "li"@[0] == 'l');
    }
    assert(name != "p"@) by {
        assert(name.len() != "p"@.len());
    }
    assert(name != "figcaption"@) by {
        assert(name.len() != "figcaption"@.len());
    }
    if trim(cur).len() > 0 {
        let out = on_tag(blocks, cur, raw).0;
        assert(out == blocks.push(text_view(trim(cur), false, true, false)));
        assert(out.take(blocks.len() as int) =~= blocks);
    }
}

/// Every piece of a bold run split of `r` carries the list-item and heading
/// flags it was asked for, and none is an image or an app.
proof fn lemma_bold_pieces_flags(r: Seq<char>, li: bool, h: bool)
    ensures
        forall|k: int|
            0 <= k < bold_pieces(r, li, h).len() ==> {
                let b = #[trigger] bold_pieces(r, li, h)[k];
                &&& b.is_list_item == li
                &&& b.is_heading == h
                &&& !b.is_image
                &&& !b.is_app
            },
    decreases r.len(),
{
    reveal_strlit("**");
    let out = bold_pieces(r, li, h);
    if r.len() > 0 {
        if let Some(s) = find_seq(r, "**"@) {
            if 0 <= s && s + 2 <= r.len() {
                let lead = if s > 0 {
                    seq![text_view(r.take(s), li, h, false)]
                } else {
                    seq![]
                };
                let r2 = r.skip(s + 2);
                if let Some(e) = find_seq(r2, "**"@) {
                    if 0 <= e && e + 2 <= r2.len() {
                        let rest = r2.skip(e + 2);
                        lemma_bold_pieces_flags(rest, li, h);
                        let mid = if e > 0 {
                            seq![text_view(r2.take(e), li, h, true)]
                        } else {
                            seq![]
                        };
                        let tail = mid + bold_pieces(rest, li, h);
                        assert(out == lead + tail);
                        assert forall|k: int| 0 <= k < out.len() implies {
                            let b = #[trigger] out[k];
                            &&& b.is_list_item == li
                            &&& b.is_heading == h
                            &&& !b.is_image
                            &&& !b.is_app
                        } by {
                            if k >= lead.len() {
                                assert(out[k] == tail[k - lead.len()]);
                                if k - lead.len() >= mid.len() {
                                    assert(tail[k - lead.len()] == bold_pieces(rest, li, h)[k
                                        - lead.len() - mid.len()]);
                                }
                            }
                        }
                    }
                } else {
                    assert(out == lead + seq![text_view(r2, li, h, false)]);
                    assert forall|k: int| 0 <= k < out.len() implies {
                        let b = #[trigger] out[k];
                        &&& b.is_list_item == li
                        &&& b.is_heading == h
                        &&& !b.is_image
                        &&& !b.is_app
                    } by {
                        if k >= lead.len() {
                            assert(out[k] == text_view(r2, li, h, false));
                        }
                    }
                }
            }
        }
    }
}

/// Splitting a text into bold runs gives blocks that all carry the
/// list-item and heading flags asked for, none an image or an app; text
/// without `**` (or a heading) gives exactly one plain block holding it.
pub proof fn law_split_bold_flags(text: Seq<char>, li: bool, h: bool)
    ensures
        forall|k: int|
            0 <= k < spec_split_bold(text, li, h).len() ==> {
                let b = #[trigger] spec_split_bold(text, li, h)[k];
                &&& b.is_list_item == li
                &&& b.is_heading == h
                &&& !b.is_image
                &&& !b.is_app
            },
        h || !contains_seq(text, "**"@) ==> spec_split_bold(text, li, h) == seq![
            BlockView {
                text,
                is_list_item: li,
                is_heading: h,
                is_bold: false,
                is_image: false,
                image_url: seq![],
                is_app: false,
                app_id: seq![],
                app_name: seq![],
                app_summary: seq![],
                app_icon_url: seq![],
            },
        ],
{
    lemma_bold_pieces_flags(text, li, h);
}

/// A closing `</li>` tag ends a list item: the blocks before it stay, every
/// block it adds is a list item (not a heading), a pending text without `**`
/// becomes exactly one list item holding that text trimmed, and no text is
/// left pending.
pub proof fn law_list_item_closes(blocks: Seq<BlockView>, cur: Seq<char>, raw: Seq<char>)
    requires
        raw.len() > 0,
        raw[0] == '/',
        tag_name(raw) == "li"@,
    ensures
        on_tag(blocks, cur, raw).1 == Seq::<char>::empty(),
        on_tag(blocks, cur, raw).0.len() >= blocks.len(),
        on_tag(blocks, cur, raw).0.take(blocks.len() as int) == blocks,
        forall|k: int|
            blocks.len() <= k < on_tag(blocks, cur, raw).0.len() ==> (#[trigger] on_tag(
                blocks,
                cur,
                raw,
            ).0[k]).is_list_item && !on_tag(blocks, cur, raw).0[k].is_heading,
        trim(cur).len() == 0 ==> on_tag(blocks, cur, raw).0 == blocks,
        trim(cur).len() > 0 && !contains_seq(trim(cur), "**"@) ==> on_tag(blocks, cur, raw).0
            == blocks.push(text_view(trim(cur), true, false, false)),
{
    let t = trim(cur);
    let out = on_tag(blocks, cur, raw).0;
    law_split_bold_flags(t, true, false);
    if t.len() > 0 {
        assert(out == blocks + spec_split_bold(t, true, false));
        assert(out.take(blocks.len() as int) =~= blocks);
        assert forall|k: int| blocks.len() <= k < out.len() implies (#[trigger] out[k]).is_list_item
            && !out[k].is_heading by {
            assert(out[k] == spec_split_bold(t, true, false)[k - blocks.len()]);
        }
        if !contains_seq(t, "**"@) {
            assert(out =~= blocks.push(text_view(t, true, false, false)));
        }
    } else {
        assert(out.take(blocks.len() as int) =~= blocks);
    }
}

/// A closing `</p>` or `</figcaption>` tag ends a paragraph: the blocks
/// before it stay and no text is left pending; a paragraph written as
/// `=== Heading ===` becomes one heading block with the heading text; any
/// other non-blank paragraph adds only plain blocks (no list items, no
/// headings), exactly one holding the trimmed text when it has no `**`.
pub proof fn law_paragraph_closes(blocks: Seq<BlockView>, cur: Seq<char>, raw: Seq<char>)
    requires
        raw.len() > 0,
        raw[0] == '/',
        tag_name(raw) == "p"@ || tag_name(raw) == "figcaption"@,
    ensures
        on_tag(blocks, cur, raw).1 == Seq::<char>::empty(),
        on_tag(blocks, cur, raw).0.len() >= blocks.len(),
        on_tag(blocks, cur, raw).0.take(blocks.len() as int) == blocks,
        trim(cur).len() == 0 ==> on_tag(blocks, cur, raw).0 == blocks,
        trim(cur).len() > 0 ==> (spec_parse_heading(trim(cur)) matches Some(h) ==> on_tag(
            blocks,
            cur,
            raw,
        ).0 == blocks.push(text_view(h, false, true, false))),
        trim(cur).len() > 0 && spec_parse_heading(trim(cur)) is None ==> forall|k: int|
            blocks.len() <= k < on_tag(blocks, cur, raw).0.len() ==> !(#[trigger] on_tag(
                blocks,
                cur,
                raw,
            ).0[k]).is_list_item && !on_tag(blocks, cur, raw).0[k].is_heading,
        trim(cur).len() > 0 && spec_parse_heading(trim(cur)) is None && !contains_seq(
            trim(cur),
            "**"@,
        ) ==> on_tag(blocks, cur, raw).0 == blocks.push(text_view(trim(cur), false, false, false)),
{
    reveal_strlit("li");
    reveal_strlit("p");
    reveal_strlit("figcaption");
    let name = tag_name(raw);
    assert(name != "li"@) by {
        if name == "p"@ {
            assert(name.len() != "li"@.len());
        } else {
            assert(name.len() != "li"@.len());
        }
    }
    let t = trim(cur);
    let out = on_tag(blocks, cur, raw).0;
    law_split_bold_flags(t, false, false);
    if t.len() > 0 {
        match spec_parse_heading(t) {
            Some(h) => {
                assert(out == blocks.push(text_view(h, false, true, false)));
                assert(out.take(blocks.len() as int) =~= blocks);
            },
            None => {
                assert(out == blocks + spec_split_bold(t, false, false));
                assert(out.take(blocks.len() as int) =~= blocks);
                assert forall|k: int| blocks.len() <= k < out.len() implies !(#[trigger] out[k]).is_list_item
                    && !out[k].is_heading by {
                    assert(out[k] == spec_split_bold(t, false, false)[k - blocks.len()]);
                }
                if !contains_seq(t, "**"@) {
                    assert(out =~= blocks.push(text_view(t, false, false, false)));
                }
            },
        }
    } else {
        assert(out.take(blocks.len() as int) =~= blocks);
    }
}

/// An `<img>` tag first turns non-blank pending text into plain blocks (after
/// the blocks before it, leaving nothing pending); then, when it has a `src`,
/// it adds one image block whose address is that `src` and whose text is its
/// `alt`. Blank pending text is left as it is.
pub proof fn law_image_tag(blocks: Seq<BlockView>, cur: Seq<char>, raw: Seq<char>)
    requires
        tag_name(raw) == "img"@,
    ensures
        on_tag(blocks, cur, raw).0.take(blocks.len() as int) == blocks,
        on_tag(blocks, cur, raw).0.len() >= blocks.len(),
        trim(cur).len() > 0 ==> on_tag(blocks, cur, raw).1 == Seq::<char>::empty(),
        trim(cur).len() == 0 ==> on_tag(blocks, cur, raw).1 == cur,
        spec_attr(raw, "src"@).len() > 0 ==> {
            let out = on_tag(blocks, cur, raw).0;
            &&& out.len() > blocks.len()
            &&& out.last().is_image
            &&& out.last().image_url == spec_attr(raw, "src"@)
            &&& out.last().text == spec_attr(raw, "alt"@)
            &&& !out.last().is_app
            &&& !out.last().is_heading
        },
        spec_attr(raw, "src"@).len() == 0 ==> forall|k: int|
            blocks.len() <= k < on_tag(blocks, cur, raw).0.len() ==> !(#[trigger] on_tag(
                blocks,
                cur,
                raw,
            ).0[k]).is_image,
{
    reveal_strlit("img");
    reveal_strlit("li");
    reveal_strlit("p");
    reveal_strlit("figcaption");
    reveal_strlit("h1");
    reveal_strlit("h2");
    reveal_strlit("h3");
    reveal_strlit("app");
    let name = tag_name(raw);
    assert(name != "li"@ && name != "p"@ && name != "figcaption"@ && name != "h1"@ && name != "h2"@
        && name != "h3"@) by {
        assert(name.len() == 3);
    }
    assert(name != "app"@) by {
        assert(name[0] == 'i' && "app"@[0] == 'a');
    }
    let t = trim(cur);
    law_split_bold_flags(t, false, false);
    let base = if t.len() > 0 {
        blocks + spec_split_bold(t, false, false)
    } else {
        blocks
    };
    let out = on_tag(blocks, cur, raw).0;
    assert(base.take(blocks.len() as int) =~= blocks);
    let src = spec_attr(raw, "src"@);
    if src.len() > 0 {
        assert(out == base.push(image_view(spec_attr(raw, "alt"@), src)));
        assert(out.take(blocks.len() as int) =~= blocks);
    } else {
        assert(out == base);
        assert forall|k: int| blocks.len() <= k < out.len() implies !(#[trigger] out[k]).is_image by {
            if t.len() > 0 {
                assert(out[k] == spec_split_bold(t, false, false)[k - blocks.len()]);
            }
        }
    }
}

/// The blocks with whatever text is still pending added.
pub open spec fn finish(blocks: Seq<BlockView>, cur: Seq<char>) -> Seq<BlockView> {
    if trim(cur).len() > 0 {
        blocks + spec_split_bold(trim(cur), false, false)
    } else {
        blocks
    }
}

/// The scan over the rest of the markup: text (entities decoded) collects
/// until a tag; a `<` without a closing `>` counts as text.
pub open spec fn run(blocks: Seq<BlockView>, cur: Seq<char>, rest: Seq<char>) -> Seq<BlockView>
    decreases rest.len(),
{
    if rest.len() == 0 {
        finish(blocks, cur)
    } else {
        match find_char(rest, '<') {
            None => finish(blocks, cur + decode(rest)),
            Some(ts) => if 0 <= ts < rest.len() {
                let cur1 = cur + decode(rest.take(ts));
                let r1 = rest.skip(ts + 1);
                match find_char(r1, '>') {
                    None => run(blocks, cur1.push('<'), r1),
                    Some(te) => if 0 <= te < r1.len() {
                        let st = on_tag(blocks, cur1, trim(r1.take(te)));
                        run(st.0, st.1, r1.skip(te + 1))
                    } else {
                        seq![]
                    },
                }
            } else {
                seq![]
            },
        }
    }
}

/// The blocks of a description's markup.
pub open spec fn spec_html_to_blocks(html: Seq<char>) -> Seq<BlockView> {
    run(seq![], seq![], html)
}

/// Adds the blocks of `t` (split into bold runs) to `blocks`.
fn extend_split(blocks: &mut Vec<DescBlock>, t: &Vec<char>, li: bool)
    ensures
        blocks_view(final(blocks)@) == blocks_view(old(blocks)@) + spec_split_bold(t@, li, false),
{
    let mut more = split_bold(string_of(t), li, false);
    proof { lemma_blocks_add(blocks@, more@); }
    blocks.append(&mut more);
}

/// Applies one tag to the blocks and the pending text.
fn handle_tag(blocks: &mut Vec<DescBlock>, cur: &mut Vec<char>, raw: &Vec<char>)
    ensures
        (blocks_view(final(blocks)@), final(cur)@) == on_tag(blocks_view(old(blocks)@), old(cur)@, raw@),
{
    let closing = raw.len() > 0 && raw[0] == '/';
    let name = tag_name_exec(raw);
    let t = trim_exec(cur);
    let is = |lit: &str| -> (b: bool)
        ensures
            b == (name@ == lit@),
        { seq_eq(&name, &chars_of(lit)) };
    if !closing && is("li") {
        if t.len() > 0 {
            extend_split(blocks, &t, false);
        }
        *cur = Vec::new();
    } else if closing && is("li") {
        if t.len() > 0 {
            extend_split(blocks, &t, true);
        }
        *cur = Vec::new();
    } else if closing && (is("p") || is("figcaption")) {
        if t.len() > 0 {
            match parse_heading(string_of(&t).as_str()) {
                Some(h) => {
                    let b = text_block(h, false, true, false);
                    proof { lemma_blocks_push(blocks@, b); }
                    blocks.push(b);
                },
                None => {
                    extend_split(blocks, &t, false);
                },
            }
        }
        *cur = Vec::new();
    } else if closing && (is("h1") || is("h2") || is("h3")) {
        if t.len() > 0 {
            let b = text_block(string_of(&t), false, true, false);
            proof { lemma_blocks_push(blocks@, b); }
            blocks.push(b);
        }
        *cur = Vec::new();
    } else if !closing && is("app") {
        if t.len() > 0 {
            extend_split(blocks, &t, false);
            *cur = Vec::new();
        }
        let id = attr_chars(raw, "id");
        if id.len() > 0 {
            let b = DescBlock {
                text: String::new(),
                is_list_item: false,
                is_heading: false,
                is_bold: false,
                is_image: false,
                image_url: String::new(),
                is_app: true,
                app_id: string_of(&id),
                app_name: String::new(),
                app_summary: String::new(),
                app_icon_url: String::new(),
            };
            proof { lemma_blocks_push(blocks@, b); }
            blocks.push(b);
        }
    } else if is("img") {
        if t.len() > 0 {
            extend_split(blocks, &t, false);
            *cur = Vec::new();
        }
        let src = attr_chars(raw, "src");
        if src.len() > 0 {
            let alt = attr_chars(raw, "alt");
            let b = DescBlock {
                text: string_of(&alt),
                is_list_item: false,
                is_heading: false,
                is_bold: false,
                is_image: true,
                image_url: string_of(&src),
                is_app: false,
                app_id: String::new(),
                app_name: String::new(),
                app_summary: String::new(),
                app_icon_url: String::new(),
            };
            proof { lemma_blocks_push(blocks@, b); }
            blocks.push(b);
        }
    } else if closing && is("figure") {
        if t.len() > 0 {
            extend_split(blocks, &t, false);
            *cur = Vec::new();
        }
    }
}

/// The markup of a description as a list of blocks.
pub fn html_to_blocks(html: &str) -> (r: Vec<DescBlock>)
    ensures
        blocks_view(r@) == spec_html_to_blocks(html@),
{
    let mut blocks: Vec<DescBlock> = Vec::new();
    let mut current: Vec<char> = Vec::new();
    let mut rest = chars_of(html);
    assert(blocks_view(blocks@) =~= Seq::<BlockView>::empty());
    while rest.len() > 0
        invariant
            spec_html_to_blocks(html@) == run(blocks_view(blocks@), current@, rest@),
        ensures
            spec_html_to_blocks(html@) == run(blocks_view(blocks@), current@, rest@),
            rest.len() == 0,
        decreases rest.len(),
    {
        match find_ch(&rest, '<') {
            None => {
                push_decoded(&rest, &mut current);
                rest = Vec::new();
                break;
            },
            Some(ts) => {
                proof { lemma_find_from_bounds(rest@, seq!['<'], 0); }
                let ghost r0 = rest@;
                let ghost b0 = blocks_view(blocks@);
                let ghost c0 = current@;
                let head = slice_to_vec(&rest, 0, ts);
                assert(head@ =~= r0.take(ts as int));
                push_decoded(&head, &mut current);
                let r1 = slice_to_vec(&rest, ts + 1, rest.len());
                assert(r1@ =~= r0.skip(ts + 1));
                match find_ch(&r1, '>') {
                    None => {
                        current.push('<');
                        rest = r1;
                    },
                    Some(te) => {
                        proof { lemma_find_from_bounds(r1@, seq!['>'], 0); }
                        let inner = slice_to_vec(&r1, 0, te);
                        assert(inner@ =~= r1@.take(te as int));
                        let raw = trim_exec(&inner);
                        handle_tag(&mut blocks, &mut current, &raw);
                        let next = slice_to_vec(&r1, te + 1, r1.len());
                        assert(next@ =~= r1@.skip(te + 1));
                        rest = next;
                    },
                }
            },
        }
    }
    let t = trim_exec(&current);
    if t.len() > 0 {
        extend_split(&mut blocks, &t, false);
    }
    blocks
}

/// The ids of the app blocks that name an app, in order.
pub open spec fn app_ids_of(bs: Seq<BlockView>) -> Seq<Seq<char>>
    decreases bs.len(),
{
    if bs.len() == 0 {
        Seq::empty()
    } else {
        let rest = app_ids_of(bs.drop_last());
        if bs.last().is_app && bs.last().app_id.len() > 0 {
            rest.push(bs.last().app_id)
        } else {
            rest
        }
    }
}

/// The ids of the app blocks that name an app, in order: the apps a story
/// or description links to, looked up before it is shown.
pub fn app_block_ids(blocks: &Vec<DescBlock>) -> (r: Vec<String>)
    ensures
        crate::text::strings_view(r@) == app_ids_of(blocks_view(blocks@)),
{
    let mut r: Vec<String> = Vec::new();
    let mut i: usize = 0;
    assert(blocks_view(blocks@).subrange(0, 0) =~= Seq::<BlockView>::empty());
    while i < blocks.len()
        invariant
            0 <= i <= blocks@.len(),
            crate::text::strings_view(r@) == app_ids_of(blocks_view(blocks@).subrange(0, i as int)),
        decreases blocks@.len() - i,
    {
        let ghost sub = blocks_view(blocks@).subrange(0, i as int + 1);
        assert(sub.drop_last() =~= blocks_view(blocks@).subrange(0, i as int));
        assert(sub.last() == blocks@[i as int].view());
        let b = &blocks[i];
        if b.is_app && chars_of(b.app_id.as_str()).len() > 0 {
            let id = b.app_id.clone();
            proof {
                crate::fields::lemma_strings_view_push(r@, id);
            }
            r.push(id);
        }
        i += 1;
    }
    assert(blocks_view(blocks@).subrange(0, i as int) =~= blocks_view(blocks@));
    r
}

/// What an app block shows of an app found in the catalog.
pub struct AppCard {
    pub id: String,
    pub name: String,
    pub summary: String,
    pub icon_url: String,
}

/// The last card for `id`.
pub open spec fn card_for(cards: Seq<AppCard>, id: Seq<char>) -> Option<AppCard>
    decreases cards.len(),
{
    if cards.len() == 0 {
        None
    } else if cards.last().id@ == id {
        Some(cards.last())
    } else {
        card_for(cards.drop_last(), id)
    }
}

/// The block after the app cards were filled in: an app block whose app has
/// a card shows its name, summary and icon; any other block is unchanged.
pub open spec fn filled_block(old_b: BlockView, new_b: BlockView, cards: Seq<AppCard>) -> bool {
    match card_for(cards, old_b.app_id) {
        Some(c) => if old_b.is_app {
            new_b == BlockView {
                app_name: c.name@,
                app_summary: c.summary@,
                app_icon_url: c.icon_url@,
                ..old_b
            }
        } else {
            new_b == old_b
        },
        None => new_b == old_b,
    }
}

fn card_index(cards: &Vec<AppCard>, id: &str) -> (r: Option<usize>)
    ensures
        match r {
            Some(k) => k < cards@.len() && card_for(cards@, id@) == Some(cards@[k as int]),
            None => card_for(cards@, id@) is None,
        },
{
    let mut i: usize = cards.len();
    assert(cards@.subrange(0, i as int) =~= cards@);
    while i > 0
        invariant
            i <= cards@.len(),
            card_for(cards@, id@) == card_for(cards@.subrange(0, i as int), id@),
        decreases i,
    {
        assert(cards@.subrange(0, i as int).drop_last() =~= cards@.subrange(0, i - 1));
        if str_eq(cards[i - 1].id.as_str(), id) {
            return Some(i - 1);
        }
        i -= 1;
    }
    None
}

/// Fills the app blocks with the cards of the apps found.
pub fn fill_app_blocks(blocks: &mut Vec<DescBlock>, cards: &Vec<AppCard>)
    ensures
        final(blocks)@.len() == old(blocks)@.len(),
        forall|j: int|
            0 <= j < final(blocks)@.len() ==> filled_block(
                old(blocks)@[j].view(),
                (#[trigger] final(blocks)@[j]).view(),
                cards@,
            ),
{
    let mut i: usize = 0;
    while i < blocks.len()
        invariant
            0 <= i <= blocks@.len(),
            blocks@.len() == old(blocks)@.len(),
            forall|j: int| i <= j < blocks@.len() ==> #[trigger] blocks@[j] == old(blocks)@[j],
            forall|j: int|
                0 <= j < i ==> filled_block(
                    old(blocks)@[j].view(),
                    (#[trigger] blocks@[j]).view(),
                    cards@,
                ),
        decreases blocks@.len() - i,
    {
        if blocks[i].is_app {
            match card_index(cards, blocks[i].app_id.as_str()) {
                Some(k) => {
                    blocks[i].app_name = cards[k].name.clone();
                    blocks[i].app_summary = cards[k].summary.clone();
                    blocks[i].app_icon_url = cards[k].icon_url.clone();
                    assert(blocks@[i as int].view() =~= BlockView {
                        app_name: cards@[k as int].name@,
                        app_summary: cards@[k as int].summary@,
                        app_icon_url: cards@[k as int].icon_url@,
                        ..old(blocks)@[i as int].view()
                    });
                },
                None => {},
            }
        }
        i += 1;
    }
}

} // verus!
