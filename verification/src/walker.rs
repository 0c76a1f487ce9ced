//! The tag-stream grammar walker: a strict recursive-descent consumer of
//! the document's events. Every grammar position lists the event shapes it
//! accepts; the first event outside that list fails the whole parse, with
//! no recovery and no partial registry handed out.

use vstd::prelude::*;
use crate::attrs::{attrs_of, parse_attributes, AttributeV, ParseError};
use crate::event::{events_of, tokenize, XmlEvent, XmlEventV};
use crate::model::{
    api_group_of, ApiGroup, GlCommand, GlCommandParam, GlCommandParamV, GlCommandV, GlEnum,
    GlEnumV, GlExtension, GlExtensionV, GlFeature, GlFeatureV, GlRegistry, GlRegistryV, GlRemoval,
    GlRemovalV, GlRequirement, GlRequirementV, GlType, GlTypeV, ReqRem, ReqRemV,
};
use crate::text::{
    chars_have_prefix, chars_of, decode_chars, decoded, has_prefix, push_chars, push_str_chars,
    str_eq, string_of, trim_chars, trimmed,
};

verus! {

/// The position just past the first `End` event named `tag` at or after
/// `i`; every event before it is skipped, whatever it is.
pub open spec fn skip_section(evs: Seq<XmlEventV>, i: int, tag: Seq<char>) -> Option<int>
    decreases evs.len() - i,
{
    if i < 0 || i >= evs.len() {
        None
    } else {
        match evs[i] {
            XmlEventV::End { name } => if name == tag {
                Some(i + 1)
            } else {
                skip_section(evs, i + 1, tag)
            },
            _ => skip_section(evs, i + 1, tag),
        }
    }
}

/// A text event followed by the `End` event named `tag`: the text and the
/// position just past the pair.
pub open spec fn grab_text(evs: Seq<XmlEventV>, i: int, tag: Seq<char>) -> Option<(Seq<char>, int)> {
    if 0 <= i && i + 1 < evs.len() {
        match (evs[i], evs[i + 1]) {
            (XmlEventV::Text { text }, XmlEventV::End { name }) => if name == tag {
                Some((text, i + 2))
            } else {
                None
            },
            _ => None,
        }
    } else {
        None
    }
}

/// Consumes events until the `End` event named `tag`, skipping everything
/// before it.
fn eat_to_close(events: &Vec<XmlEvent>, pos: usize, tag: &str) -> (r: Result<usize, ParseError>)
    ensures
        match r {
            Ok(j) => skip_section(events.deep_view(), pos as int, tag@) == Some(j as int) && pos < j
                <= events@.len(),
            Err(_) => skip_section(events.deep_view(), pos as int, tag@) is None,
        },
{
    let ghost evs = events.deep_view();
    let n = events.len();
    let mut i: usize = pos;
    if i > n {
        return Err(ParseError);
    }
    loop
        invariant
            pos <= i <= n,
            n == events@.len(),
            evs == events.deep_view(),
            skip_section(evs, pos as int, tag@) == skip_section(evs, i as int, tag@),
        decreases n - i,
    {
        if i == n {
            return Err(ParseError);
        }
        proof {
            assert(evs[i as int] == events@[i as int].deep_view());
        }
        match &events[i] {
            XmlEvent::End { name } => {
                if str_eq(name.as_str(), tag) {
                    return Ok(i + 1);
                } else {
                    i += 1;
                }
            },
            _ => {
                i += 1;
            },
        }
    }
}

/// Consumes events until the end of a comment block, whose whole content is
/// skipped without producing model entries.
pub fn eat_to_comment_close(events: &Vec<XmlEvent>, pos: usize) -> (r: Result<usize, ParseError>)
    ensures
        match r {
            Ok(j) => skip_section(events.deep_view(), pos as int, "comment"@) == Some(j as int)
                && pos < j <= events@.len(),
            Err(_) => skip_section(events.deep_view(), pos as int, "comment"@) is None,
        },
{
    eat_to_close(events, pos, "comment")
}

/// Consumes events until the end of a groups section, whose whole content is
/// skipped without producing model entries.
pub fn eat_to_groups_close(events: &Vec<XmlEvent>, pos: usize) -> (r: Result<usize, ParseError>)
    ensures
        match r {
            Ok(j) => skip_section(events.deep_view(), pos as int, "groups"@) == Some(j as int)
                && pos < j <= events@.len(),
            Err(_) => skip_section(events.deep_view(), pos as int, "groups"@) is None,
        },
{
    eat_to_close(events, pos, "groups")
}

/// Consumes a text event and the `End` event closing `tag`, yielding the
/// text.
fn grab_tagged_text(events: &Vec<XmlEvent>, pos: usize, tag: &str) -> (r: Result<
    (String, usize),
    ParseError,
>)
    ensures
        match r {
            Ok((t, j)) => grab_text(events.deep_view(), pos as int, tag@) == Some((t@, j as int))
                && pos < j <= events@.len(),
            Err(_) => grab_text(events.deep_view(), pos as int, tag@) is None,
        },
{
    let ghost evs = events.deep_view();
    let n = events.len();
    if pos >= n || pos + 1 >= n {
        return Err(ParseError);
    }
    proof {
        assert(evs[pos as int] == events@[pos as int].deep_view());
        assert(evs[pos + 1 as int] == events@[pos + 1 as int].deep_view());
    }
    let t = match &events[pos] {
        XmlEvent::Text { text } => text.clone(),
        _ => {
            return Err(ParseError);
        },
    };
    match &events[pos + 1] {
        XmlEvent::End { name } => {
            if str_eq(name.as_str(), tag) {
                Ok((t, pos + 2))
            } else {
                Err(ParseError)
            }
        },
        _ => Err(ParseError),
    }
}

/// Consumes the text of a `name` element whose start tag was just read.
pub fn grab_out_name_text(events: &Vec<XmlEvent>, pos: usize) -> (r: Result<
    (String, usize),
    ParseError,
>)
    ensures
        match r {
            Ok((t, j)) => grab_text(events.deep_view(), pos as int, "name"@) == Some((t@, j as int))
                && pos < j <= events@.len(),
            Err(_) => grab_text(events.deep_view(), pos as int, "name"@) is None,
        },
{
    grab_tagged_text(events, pos, "name")
}

/// Consumes the text of a `ptype` element whose start tag was just read.
pub fn grab_out_ptype_text(events: &Vec<XmlEvent>, pos: usize) -> (r: Result<
    (String, usize),
    ParseError,
>)
    ensures
        match r {
            Ok((t, j)) => grab_text(events.deep_view(), pos as int, "ptype"@) == Some((
                t@,
                j as int,
            )) && pos < j <= events@.len(),
            Err(_) => grab_text(events.deep_view(), pos as int, "ptype"@) is None,
        },
{
    grab_tagged_text(events, pos, "ptype")
}

/// A copy of an optional string, with the same characters.
fn clone_opt_string(o: &Option<String>) -> (r: Option<String>)
    ensures
        r.deep_view() == o.deep_view(),
{
    match o {
        Option::None => Option::None,
        Option::Some(s) => Option::Some(s.clone()),
    }
}

/// A constant with nothing read from its attribute list yet.
pub open spec fn enum_init(is_bitmask: bool) -> GlEnumV {
    GlEnumV {
        name: Seq::empty(),
        value: Seq::empty(),
        group: None,
        alias_of: None,
        api: None,
        is_bitmask: is_bitmask,
    }
}

/// Reads one constant's attribute pairs from `j` on, onto the partial
/// constant `st`; an unknown key or an unknown API scope fails.
pub open spec fn enum_attrs_loop(ps: Seq<AttributeV>, j: int, st: GlEnumV) -> Option<GlEnumV>
    decreases ps.len() - j,
{
    if j < 0 || j >= ps.len() {
        Some(st)
    } else {
        let a = ps[j];
        if a.key == "name"@ {
            enum_attrs_loop(ps, j + 1, GlEnumV { name: st.name + a.value, ..st })
        } else if a.key == "value"@ {
            enum_attrs_loop(ps, j + 1, GlEnumV { value: st.value + a.value, ..st })
        } else if a.key == "group"@ {
            enum_attrs_loop(ps, j + 1, GlEnumV { group: Some(a.value), ..st })
        } else if a.key == "alias"@ {
            enum_attrs_loop(ps, j + 1, GlEnumV { alias_of: Some(a.value), ..st })
        } else if a.key == "api"@ {
            match api_group_of(a.value) {
                Some(g) => enum_attrs_loop(ps, j + 1, GlEnumV { api: Some(g), ..st }),
                None => None,
            }
        } else if a.key == "comment"@ || a.key == "type"@ {
            enum_attrs_loop(ps, j + 1, st)
        } else {
            None
        }
    }
}

/// The constant one `enum` tag's raw attribute text describes, under the
/// section's bitmask flag; `None` when the list is malformed, a key is
/// unknown, or the name or value is missing.
pub open spec fn gl_enum_of(attrs: Seq<char>, is_bitmask: bool) -> Option<GlEnumV> {
    match attrs_of(attrs) {
        None => None,
        Some(ps) => match enum_attrs_loop(ps, 0, enum_init(is_bitmask)) {
            None => None,
            Some(e) => if e.name.len() > 0 && e.value.len() > 0 {
                Some(e)
            } else {
                None
            },
        },
    }
}

impl GlEnum {
    /// Builds one constant from the raw attribute text of its tag, under the
    /// owning section's bitmask flag.
    #[verifier::loop_isolation(false)]
    pub fn from_attrs(attrs: &str, is_bitmask: bool) -> (r: Result<GlEnum, ParseError>)
        ensures
            match r {
                Ok(e) => gl_enum_of(attrs@, is_bitmask) == Some(e.deep_view()),
                Err(_) => gl_enum_of(attrs@, is_bitmask) is None,
            },
    {
        let ps = match parse_attributes(attrs) {
            Ok(v) => v,
            Err(e) => {
                return Err(e);
            },
        };
        let ghost pv = ps.deep_view();
        let mut e = GlEnum {
            name: String::new(),
            value: String::new(),
            group: None,
            alias_of: None,
            api: None,
            is_bitmask,
        };
        let n = ps.len();
        let mut j: usize = 0;
        proof {
            assert(e.deep_view() =~= enum_init(is_bitmask));
        }
        while j < n
            invariant
                j <= n,
                n == ps@.len(),
                pv == ps.deep_view(),
                enum_attrs_loop(pv, 0, enum_init(is_bitmask)) == enum_attrs_loop(
                    pv,
                    j as int,
                    e.deep_view(),
                ),
            decreases n - j,
        {
            proof {
                assert(pv[j as int] == ps@[j as int].deep_view());
            }
            let a = &ps[j];
            if str_eq(a.key.as_str(), "name") {
                e.name.append(a.value.as_str());
            } else if str_eq(a.key.as_str(), "value") {
                e.value.append(a.value.as_str());
            } else if str_eq(a.key.as_str(), "group") {
                e.group = Some(a.value.clone());
            } else if str_eq(a.key.as_str(), "alias") {
                e.alias_of = Some(a.value.clone());
            } else if str_eq(a.key.as_str(), "api") {
                match ApiGroup::from(a.value.as_str()) {
                    Some(g) => {
                        e.api = Some(g);
                    },
                    None => {
                        return Err(ParseError);
                    },
                }
            } else if str_eq(a.key.as_str(), "comment") || str_eq(a.key.as_str(), "type") {
            } else {
                return Err(ParseError);
            }
            j += 1;
        }
        if e.name.as_str().is_empty() || e.value.as_str().is_empty() {
            return Err(ParseError);
        }
        Ok(e)
    }
}

/// Reads an `enums` section's own attribute pairs: the namespace must be
/// `GL` where given, layout keys are skipped, and `type="bitmask"` marks
/// the whole section's constants as bitmasks.
pub open spec fn enums_attrs_loop(ps: Seq<AttributeV>, j: int, bm: bool) -> Option<bool>
    decreases ps.len() - j,
{
    if j < 0 || j >= ps.len() {
        Some(bm)
    } else {
        let a = ps[j];
        if a.key == "namespace"@ {
            if a.value == "GL"@ {
                enums_attrs_loop(ps, j + 1, bm)
            } else {
                None
            }
        } else if a.key == "group"@ || a.key == "comment"@ || a.key == "vendor"@ || a.key
            == "start"@ || a.key == "end"@ {
            enums_attrs_loop(ps, j + 1, bm)
        } else if a.key == "type"@ && a.value == "bitmask"@ {
            enums_attrs_loop(ps, j + 1, true)
        } else {
            None
        }
    }
}

/// Reads `enum` and `unused` entries until the section's `End` event, each
/// `enum` entry becoming one constant appended to `acc`.
pub open spec fn enums_entries(evs: Seq<XmlEventV>, i: int, bm: bool, acc: Seq<GlEnumV>) -> Option<
    (Seq<GlEnumV>, int),
>
    decreases evs.len() - i,
{
    if i < 0 || i >= evs.len() {
        None
    } else {
        match evs[i] {
            XmlEventV::End { name } => if name == "enums"@ {
                Some((acc, i + 1))
            } else {
                None
            },
            XmlEventV::Empty { name, attrs } => if name == "unused"@ {
                enums_entries(evs, i + 1, bm, acc)
            } else if name == "enum"@ {
                match gl_enum_of(attrs, bm) {
                    Some(e) => enums_entries(evs, i + 1, bm, acc.push(e)),
                    None => None,
                }
            } else {
                None
            },
            _ => None,
        }
    }
}

/// One whole `enums` section: its attribute list decides the bitmask flag,
/// then its entries extend `acc` in document order.
pub open spec fn enums_section(
    evs: Seq<XmlEventV>,
    i: int,
    attrs: Seq<char>,
    acc: Seq<GlEnumV>,
) -> Option<(Seq<GlEnumV>, int)> {
    match attrs_of(attrs) {
        None => None,
        Some(ps) => match enums_attrs_loop(ps, 0, false) {
            None => None,
            Some(bm) => enums_entries(evs, i, bm, acc),
        },
    }
}

/// Consumes one `enums` section whose start tag carried `attrs`, appending
/// each constant to `list` in document order; on failure `list` is left as
/// it was.
#[verifier::loop_isolation(false)]
pub fn gather_enum_entries_to(
    list: &mut Vec<GlEnum>,
    events: &Vec<XmlEvent>,
    pos: usize,
    attrs: &str,
) -> (r: Result<usize, ParseError>)
    ensures
        match r {
            Ok(j) => enums_section(events.deep_view(), pos as int, attrs@, old(list).deep_view())
                == Some((final(list).deep_view(), j as int)) && pos < j <= events@.len(),
            Err(_) => enums_section(events.deep_view(), pos as int, attrs@, old(list).deep_view())
                is None && final(list)@ == old(list)@,
        },
{
    let ghost evs = events.deep_view();
    let ghost acc0 = old(list).deep_view();
    let ps = match parse_attributes(attrs) {
        Ok(v) => v,
        Err(e) => {
            return Err(e);
        },
    };
    let ghost pv = ps.deep_view();
    let mut bm = false;
    let pn = ps.len();
    let mut j: usize = 0;
    while j < pn
        invariant
            j <= pn,
            pn == ps@.len(),
            pv == ps.deep_view(),
            list@ == old(list)@,
            enums_attrs_loop(pv, 0, false) == enums_attrs_loop(pv, j as int, bm),
        decreases pn - j,
    {
        proof {
            assert(pv[j as int] == ps@[j as int].deep_view());
        }
        let a = &ps[j];
        if str_eq(a.key.as_str(), "namespace") {
            if !str_eq(a.value.as_str(), "GL") {
                return Err(ParseError);
            }
        } else if str_eq(a.key.as_str(), "group") || str_eq(a.key.as_str(), "comment") || str_eq(
            a.key.as_str(),
            "vendor",
        ) || str_eq(a.key.as_str(), "start") || str_eq(a.key.as_str(), "end") {
        } else if str_eq(a.key.as_str(), "type") && str_eq(a.value.as_str(), "bitmask") {
            bm = true;
        } else {
            return Err(ParseError);
        }
        j += 1;
    }
    let mut fresh: Vec<GlEnum> = Vec::new();
    let n = events.len();
    let mut i: usize = pos;
    if i > n {
        return Err(ParseError);
    }
    proof {
        assert(acc0 + fresh.deep_view() =~= acc0);
    }
    loop
        invariant
            pos <= i <= n,
            n == events@.len(),
            evs == events.deep_view(),
            list@ == old(list)@,
            acc0 == old(list).deep_view(),
            enums_entries(evs, pos as int, bm, acc0) == enums_entries(
                evs,
                i as int,
                bm,
                acc0 + fresh.deep_view(),
            ),
            enums_section(evs, pos as int, attrs@, acc0) == enums_entries(evs, pos as int, bm, acc0),
        decreases n - i,
    {
        if i == n {
            return Err(ParseError);
        }
        proof {
            assert(evs[i as int] == events@[i as int].deep_view());
        }
        match &events[i] {
            XmlEvent::End { name } => {
                if str_eq(name.as_str(), "enums") {
                    let ghost res = acc0 + fresh.deep_view();
                    list.append(&mut fresh);
                    proof {
                        assert(list.deep_view() =~= res);
                    }
                    return Ok(i + 1);
                } else {
                    return Err(ParseError);
                }
            },
            XmlEvent::Empty { name, attrs: eattrs } => {
                if str_eq(name.as_str(), "unused") {
                    i += 1;
                } else if str_eq(name.as_str(), "enum") {
                    match GlEnum::from_attrs(eattrs.as_str(), bm) {
                        Ok(e) => {
                            let ghost prev = fresh.deep_view();
                            let ghost ev = e.deep_view();
                            fresh.push(e);
                            proof {
                                assert(fresh.deep_view() =~= prev.push(ev));
                                assert(acc0 + prev.push(ev) =~= (acc0 + prev).push(ev));
                            }
                            i += 1;
                        },
                        Err(err) => {
                            return Err(err);
                        },
                    }
                } else {
                    return Err(ParseError);
                }
            },
            _ => {
                return Err(ParseError);
            },
        }
    }
}

/// Accumulates one `type` element's mixed text: text nodes are trimmed and
/// concatenated, a nested `name` element contributes its text with a space
/// before it when text is already present, and `apientry` markers vanish.
pub open spec fn type_text_loop(evs: Seq<XmlEventV>, i: int, acc: Seq<char>) -> Option<
    (Seq<char>, int),
>
    decreases evs.len() - i,
{
    if i < 0 || i >= evs.len() {
        None
    } else {
        match evs[i] {
            XmlEventV::End { name } => if name == "type"@ {
                Some((acc, i + 1))
            } else {
                None
            },
            XmlEventV::Start { name, attrs } => if name == "name"@ && attrs.len() == 0 {
                match grab_text(evs, i + 1, "name"@) {
                    Some((t, j)) => if i < j && j <= evs.len() {
                        type_text_loop(
                            evs,
                            j,
                            if acc.len() == 0 {
                                t
                            } else {
                                acc + " "@ + t
                            },
                        )
                    } else {
                        None
                    },
                    None => None,
                }
            } else {
                None
            },
            XmlEventV::Text { text } => type_text_loop(evs, i + 1, acc + trimmed(text)),
            XmlEventV::Empty { name, attrs } => if name == "apientry"@ && attrs.len() == 0 {
                type_text_loop(evs, i + 1, acc)
            } else {
                None
            },
        }
    }
}

/// One whole `type` element: its accumulated text is entity-decoded and
/// classified by its leading keyword; an `#include` block yields no entry,
/// and text outside the known shapes fails.
pub open spec fn type_entry(evs: Seq<XmlEventV>, i: int) -> Option<(Option<GlTypeV>, int)> {
    match type_text_loop(evs, i, Seq::empty()) {
        None => None,
        Some((txt, j)) => match decoded(txt) {
            None => None,
            Some(d) => if has_prefix(d, "#include"@) {
                Some((None, j))
            } else if has_prefix(d, "typedef"@) {
                Some((Some(GlTypeV::Typedef(d)), j))
            } else if has_prefix(d, "struct"@) {
                Some((Some(GlTypeV::Struct(d)), j))
            } else if has_prefix(d, "#ifdef"@) {
                Some((Some(GlTypeV::IfDef(d)), j))
            } else {
                None
            },
        },
    }
}

impl GlType {
    /// Consumes one `type` element whose start tag was just read, yielding
    /// its classified declaration, or nothing for an `#include` block.
    #[verifier::loop_isolation(false)]
    pub fn try_from_iter_and_attrs(events: &Vec<XmlEvent>, pos: usize, _attrs: &str) -> (r: Result<
        (Option<GlType>, usize),
        ParseError,
    >)
        ensures
            match r {
                Ok((t, j)) => type_entry(events.deep_view(), pos as int) == Some((
                    t.deep_view(),
                    j as int,
                )) && pos < j <= events@.len(),
                Err(_) => type_entry(events.deep_view(), pos as int) is None,
            },
    {
        let ghost evs = events.deep_view();
        let n = events.len();
        let mut acc: Vec<char> = Vec::new();
        let mut i: usize = pos;
        if i > n {
            return Err(ParseError);
        }
        proof {
            assert(acc@ =~= Seq::<char>::empty());
        }
        loop
            invariant
                pos <= i <= n,
                type_text_loop(evs, pos as int, Seq::empty()) == type_text_loop(
                    evs,
                    i as int,
                    acc@,
                ),
            decreases n - i,
        {
            if i == n {
                return Err(ParseError);
            }
            proof {
                assert(evs[i as int] == events@[i as int].deep_view());
            }
            match &events[i] {
                XmlEvent::End { name } => {
                    if str_eq(name.as_str(), "type") {
                        let d = match decode_chars(&acc) {
                            Some(d) => d,
                            None => {
                                return Err(ParseError);
                            },
                        };
                        if chars_have_prefix(&d, "#include") {
                            return Ok((None, i + 1));
                        } else if chars_have_prefix(&d, "typedef") {
                            return Ok((Some(GlType::Typedef(string_of(&d))), i + 1));
                        } else if chars_have_prefix(&d, "struct") {
                            return Ok((Some(GlType::Struct(string_of(&d))), i + 1));
                        } else if chars_have_prefix(&d, "#ifdef") {
                            return Ok((Some(GlType::IfDef(string_of(&d))), i + 1));
                        } else {
                            return Err(ParseError);
                        }
                    } else {
                        return Err(ParseError);
                    }
                },
                XmlEvent::Start { name, attrs } => {
                    if str_eq(name.as_str(), "name") && attrs.as_str().is_empty() {
                        match grab_out_name_text(events, i + 1) {
                            Ok((t, j)) => {
                                proof {
                                    reveal_strlit(" ");
                                }
                                if acc.len() == 0 {
                                    push_str_chars(&mut acc, t.as_str());
                                    proof {
                                        assert(acc@ =~= t@);
                                    }
                                } else {
                                    let ghost before = acc@;
                                    acc.push(' ');
                                    push_str_chars(&mut acc, t.as_str());
                                    proof {
                                        assert(acc@ =~= before + " "@ + t@);
                                    }
                                }
                                i = j;
                            },
                            Err(e) => {
                                return Err(e);
                            },
                        }
                    } else {
                        return Err(ParseError);
                    }
                },
                XmlEvent::Text { text } => {
                    let tc = chars_of(text.as_str());
                    let tt = trim_chars(&tc);
                    push_chars(&mut acc, &tt);
                    i += 1;
                },
                XmlEvent::Empty { name, attrs } => {
                    if str_eq(name.as_str(), "apientry") && attrs.as_str().is_empty() {
                        i += 1;
                    } else {
                        return Err(ParseError);
                    }
                },
            }
        }
    }
}

/// Reads `type` elements until the section's `End` event, each one that
/// yields a declaration being appended to `acc`.
pub open spec fn types_section(evs: Seq<XmlEventV>, i: int, acc: Seq<GlTypeV>) -> Option<
    (Seq<GlTypeV>, int),
>
    decreases evs.len() - i,
{
    if i < 0 || i >= evs.len() {
        None
    } else {
        match evs[i] {
            XmlEventV::End { name } => if name == "types"@ {
                Some((acc, i + 1))
            } else {
                None
            },
            XmlEventV::Start { name, attrs } => if name == "type"@ {
                match type_entry(evs, i + 1) {
                    Some((opt, j)) => if i < j && j <= evs.len() {
                        types_section(
                            evs,
                            j,
                            match opt {
                                Some(t) => acc.push(t),
                                None => acc,
                            },
                        )
                    } else {
                        None
                    },
                    None => None,
                }
            } else {
                None
            },
            _ => None,
        }
    }
}

/// Consumes one `types` section, appending each declared type to `list` in
/// document order; on failure `list` is left as it was.
#[verifier::loop_isolation(false)]
pub fn consume_types(list: &mut Vec<GlType>, events: &Vec<XmlEvent>, pos: usize) -> (r: Result<
    usize,
    ParseError,
>)
    ensures
        match r {
            Ok(j) => types_section(events.deep_view(), pos as int, old(list).deep_view()) == Some(
                (final(list).deep_view(), j as int),
            ) && pos < j <= events@.len(),
            Err(_) => types_section(events.deep_view(), pos as int, old(list).deep_view()) is None
                && final(list)@ == old(list)@,
        },
{
    let ghost evs = events.deep_view();
    let ghost acc0 = old(list).deep_view();
    let mut fresh: Vec<GlType> = Vec::new();
    let n = events.len();
    let mut i: usize = pos;
    if i > n {
        return Err(ParseError);
    }
    proof {
        assert(acc0 + fresh.deep_view() =~= acc0);
    }
    loop
        invariant
            pos <= i <= n,
            list@ == old(list)@,
            types_section(evs, pos as int, acc0) == types_section(
                evs,
                i as int,
                acc0 + fresh.deep_view(),
            ),
        decreases n - i,
    {
        if i == n {
            return Err(ParseError);
        }
        proof {
            assert(evs[i as int] == events@[i as int].deep_view());
        }
        match &events[i] {
            XmlEvent::End { name } => {
                if str_eq(name.as_str(), "types") {
                    let ghost res = acc0 + fresh.deep_view();
                    list.append(&mut fresh);
                    proof {
                        assert(list.deep_view() =~= res);
                    }
                    return Ok(i + 1);
                } else {
                    return Err(ParseError);
                }
            },
            XmlEvent::Start { name, attrs } => {
                if str_eq(name.as_str(), "type") {
                    match GlType::try_from_iter_and_attrs(events, i + 1, attrs.as_str()) {
                        Ok((opt, j)) => {
                            match opt {
                                Some(t) => {
                                    let ghost prev = fresh.deep_view();
                                    let ghost tv = t.deep_view();
                                    fresh.push(t);
                                    proof {
                                        assert(fresh.deep_view() =~= prev.push(tv));
                                        assert(acc0 + prev.push(tv) =~= (acc0 + prev).push(tv));
                                    }
                                },
                                None => {},
                            }
                            i = j;
                        },
                        Err(e) => {
                            return Err(e);
                        },
                    }
                } else {
                    return Err(ParseError);
                }
            },
            _ => {
                return Err(ParseError);
            },
        }
    }
}

/// Reads a `proto` element's attribute pairs: only `group` is known, and it
/// sets the prototype-level group tag.
pub open spec fn proto_attrs_loop(ps: Seq<AttributeV>, j: int, g: Option<Seq<char>>) -> Option<
    Option<Seq<char>>,
>
    decreases ps.len() - j,
{
    if j < 0 || j >= ps.len() {
        Some(g)
    } else if ps[j].key == "group"@ {
        proto_attrs_loop(ps, j + 1, Some(ps[j].value))
    } else {
        None
    }
}

/// Accumulates a `proto` element's mixed content: text and `ptype` text
/// extend the prototype, and the nested `name` text extends both the
/// prototype and the command's name.
pub open spec fn proto_loop(evs: Seq<XmlEventV>, i: int, nm: Seq<char>, pr: Seq<char>) -> Option<
    (Seq<char>, Seq<char>, int),
>
    decreases evs.len() - i,
{
    if i < 0 || i >= evs.len() {
        None
    } else {
        match evs[i] {
            XmlEventV::End { name } => if name == "proto"@ {
                Some((nm, pr, i + 1))
            } else {
                None
            },
            XmlEventV::Text { text } => proto_loop(evs, i + 1, nm, pr + text),
            XmlEventV::Start { name, attrs } => if name == "name"@ && attrs.len() == 0 {
                match grab_text(evs, i + 1, "name"@) {
                    Some((t, j)) => if i < j && j <= evs.len() {
                        proto_loop(evs, j, nm + t, pr + t)
                    } else {
                        None
                    },
                    None => None,
                }
            } else if name == "ptype"@ && attrs.len() == 0 {
                match grab_text(evs, i + 1, "ptype"@) {
                    Some((t, j)) => if i < j && j <= evs.len() {
                        proto_loop(evs, j, nm, pr + t)
                    } else {
                        None
                    },
                    None => None,
                }
            } else {
                None
            },
            _ => None,
        }
    }
}

/// Reads a `param` element's attribute pairs: `group` and `len` are the
/// known keys.
pub open spec fn param_attrs_loop(
    ps: Seq<AttributeV>,
    j: int,
    g: Option<Seq<char>>,
    l: Option<Seq<char>>,
) -> Option<(Option<Seq<char>>, Option<Seq<char>>)>
    decreases ps.len() - j,
{
    if j < 0 || j >= ps.len() {
        Some((g, l))
    } else if ps[j].key == "group"@ {
        param_attrs_loop(ps, j + 1, Some(ps[j].value), l)
    } else if ps[j].key == "len"@ {
        param_attrs_loop(ps, j + 1, g, Some(ps[j].value))
    } else {
        None
    }
}

/// Accumulates a `param` element's mixed content: `ptype` text and plain
/// text verbatim, and the nested `name` text with a space before it.
pub open spec fn param_text_loop(evs: Seq<XmlEventV>, i: int, acc: Seq<char>) -> Option<
    (Seq<char>, int),
>
    decreases evs.len() - i,
{
    if i < 0 || i >= evs.len() {
        None
    } else {
        match evs[i] {
            XmlEventV::End { name } => if name == "param"@ {
                Some((acc, i + 1))
            } else {
                None
            },
            XmlEventV::Start { name, attrs } => if name == "ptype"@ && attrs.len() == 0 {
                match grab_text(evs, i + 1, "ptype"@) {
                    Some((t, j)) => if i < j && j <= evs.len() {
                        param_text_loop(evs, j, acc + t)
                    } else {
                        None
                    },
                    None => None,
                }
            } else if name == "name"@ && attrs.len() == 0 {
                match grab_text(evs, i + 1, "name"@) {
                    Some((t, j)) => if i < j && j <= evs.len() {
                        param_text_loop(evs, j, acc + " "@ + t)
                    } else {
                        None
                    },
                    None => None,
                }
            } else {
                None
            },
            XmlEventV::Text { text } => param_text_loop(evs, i + 1, acc + text),
            _ => None,
        }
    }
}

/// One whole `param` element: its attribute pairs give the group and length
/// tags, its content gives the declaration text.
pub open spec fn param_of(evs: Seq<XmlEventV>, i: int, attrs: Seq<char>) -> Option<
    (GlCommandParamV, int),
> {
    match attrs_of(attrs) {
        None => None,
        Some(ps) => match param_attrs_loop(ps, 0, None, None) {
            None => None,
            Some((g, l)) => match param_text_loop(evs, i, Seq::empty()) {
                None => None,
                Some((t, j)) => Some((GlCommandParamV { text: t, group: g, len: l }, j)),
            },
        },
    }
}

impl GlCommandParam {
    /// Consumes one `param` element whose start tag carried `attrs`.
    #[verifier::loop_isolation(false)]
    pub fn from_iter_and_attrs(events: &Vec<XmlEvent>, pos: usize, attrs: &str) -> (r: Result<
        (GlCommandParam, usize),
        ParseError,
    >)
        ensures
            match r {
                Ok((p, j)) => param_of(events.deep_view(), pos as int, attrs@) == Some((
                    p.deep_view(),
                    j as int,
                )) && pos < j <= events@.len(),
                Err(_) => param_of(events.deep_view(), pos as int, attrs@) is None,
            },
    {
        let ghost evs = events.deep_view();
        let ps = match parse_attributes(attrs) {
            Ok(v) => v,
            Err(e) => {
                return Err(e);
            },
        };
        let ghost pv = ps.deep_view();
        let mut group: Option<String> = None;
        let mut len: Option<String> = None;
        let pn = ps.len();
        let mut j: usize = 0;
        while j < pn
            invariant
                j <= pn,
                param_attrs_loop(pv, 0, None, None) == param_attrs_loop(
                    pv,
                    j as int,
                    group.deep_view(),
                    len.deep_view(),
                ),
            decreases pn - j,
        {
            proof {
                assert(pv[j as int] == ps@[j as int].deep_view());
            }
            let a = &ps[j];
            if str_eq(a.key.as_str(), "group") {
                group = Some(a.value.clone());
            } else if str_eq(a.key.as_str(), "len") {
                len = Some(a.value.clone());
            } else {
                return Err(ParseError);
            }
            j += 1;
        }
        let n = events.len();
        let mut acc: Vec<char> = Vec::new();
        let mut i: usize = pos;
        if i > n {
            return Err(ParseError);
        }
        proof {
            assert(acc@ =~= Seq::<char>::empty());
        }
        loop
            invariant
                pos <= i <= n,
                param_text_loop(evs, pos as int, Seq::empty()) == param_text_loop(
                    evs,
                    i as int,
                    acc@,
                ),
            decreases n - i,
        {
            if i == n {
                return Err(ParseError);
            }
            proof {
                assert(evs[i as int] == events@[i as int].deep_view());
            }
            match &events[i] {
                XmlEvent::End { name } => {
                    if str_eq(name.as_str(), "param") {
                        let p = GlCommandParam { text: string_of(&acc), group, len };
                        return Ok((p, i + 1));
                    } else {
                        return Err(ParseError);
                    }
                },
                XmlEvent::Start { name, attrs: sattrs } => {
                    if str_eq(name.as_str(), "ptype") && sattrs.as_str().is_empty() {
                        match grab_out_ptype_text(events, i + 1) {
                            Ok((t, j2)) => {
                                push_str_chars(&mut acc, t.as_str());
                                i = j2;
                            },
                            Err(e) => {
                                return Err(e);
                            },
                        }
                    } else if str_eq(name.as_str(), "name") && sattrs.as_str().is_empty() {
                        match grab_out_name_text(events, i + 1) {
                            Ok((t, j2)) => {
                                let ghost before = acc@;
                                proof {
                                    reveal_strlit(" ");
                                }
                                acc.push(' ');
                                push_str_chars(&mut acc, t.as_str());
                                proof {
                                    assert(acc@ =~= before + " "@ + t@);
                                }
                                i = j2;
                            },
                            Err(e) => {
                                return Err(e);
                            },
                        }
                    } else {
                        return Err(ParseError);
                    }
                },
                XmlEvent::Text { text } => {
                    push_str_chars(&mut acc, text.as_str());
                    i += 1;
                },
                _ => {
                    return Err(ParseError);
                },
            }
        }
    }
}

/// Reads an `alias` or `vecequiv` tag's attribute pairs: only `name` is
/// known, and it sets the target.
pub open spec fn single_name_loop(ps: Seq<AttributeV>, j: int, cur: Option<Seq<char>>) -> Option<
    Option<Seq<char>>,
>
    decreases ps.len() - j,
{
    if j < 0 || j >= ps.len() {
        Some(cur)
    } else if ps[j].key == "name"@ {
        single_name_loop(ps, j + 1, Some(ps[j].value))
    } else {
        None
    }
}

/// A command with nothing read yet.
pub open spec fn command_init() -> GlCommandV {
    GlCommandV {
        name: Seq::empty(),
        proto: Seq::empty(),
        proto_group: None,
        params: Seq::empty(),
        glx_attrs: None,
        alias_of: None,
        vec_equivalent: None,
    }
}

/// Whether a `command` tag's own attribute pairs are all `comment` entries,
/// the only key the grammar knows there.
pub open spec fn command_attrs_ok(ps: Seq<AttributeV>) -> bool {
    forall|x: int| 0 <= x < ps.len() ==> ps[x].key == "comment"@
}

/// Reads a command's children until its `End` event: one `proto` element,
/// `param` elements in order, and the `glx`, `alias` and `vecequiv`
/// markers.
pub open spec fn command_loop(evs: Seq<XmlEventV>, i: int, st: GlCommandV) -> Option<
    (GlCommandV, int),
>
    decreases evs.len() - i,
{
    if i < 0 || i >= evs.len() {
        None
    } else {
        match evs[i] {
            XmlEventV::End { name } => if name == "command"@ {
                Some((st, i + 1))
            } else {
                None
            },
            XmlEventV::Start { name, attrs } => if name == "proto"@ {
                match attrs_of(attrs) {
                    None => None,
                    Some(ps) => match proto_attrs_loop(ps, 0, st.proto_group) {
                        None => None,
                        Some(g) => match proto_loop(evs, i + 1, st.name, st.proto) {
                            Some((nm, pr, j)) => if i < j && j <= evs.len() {
                                command_loop(
                                    evs,
                                    j,
                                    GlCommandV { name: nm, proto: pr, proto_group: g, ..st },
                                )
                            } else {
                                None
                            },
                            None => None,
                        },
                    },
                }
            } else if name == "param"@ {
                match param_of(evs, i + 1, attrs) {
                    Some((p, j)) => if i < j && j <= evs.len() {
                        command_loop(evs, j, GlCommandV { params: st.params.push(p), ..st })
                    } else {
                        None
                    },
                    None => None,
                }
            } else {
                None
            },
            XmlEventV::Empty { name, attrs } => if name == "glx"@ {
                command_loop(evs, i + 1, GlCommandV { glx_attrs: Some(attrs), ..st })
            } else if name == "alias"@ {
                match attrs_of(attrs) {
                    None => None,
                    Some(ps) => match single_name_loop(ps, 0, st.alias_of) {
                        None => None,
                        Some(a) => command_loop(evs, i + 1, GlCommandV { alias_of: a, ..st }),
                    },
                }
            } else if name == "vecequiv"@ {
                match attrs_of(attrs) {
                    None => None,
                    Some(ps) => match single_name_loop(ps, 0, st.vec_equivalent) {
                        None => None,
                        Some(a) => command_loop(evs, i + 1, GlCommandV { vec_equivalent: a, ..st }),
                    },
                }
            } else {
                None
            },
            _ => None,
        }
    }
}

/// One whole `command` element: its own attribute list may hold only
/// comments, then its children build the command.
pub open spec fn command_of(evs: Seq<XmlEventV>, i: int, attrs: Seq<char>) -> Option<
    (GlCommandV, int),
> {
    match attrs_of(attrs) {
        None => None,
        Some(ps) => if command_attrs_ok(ps) {
            command_loop(evs, i, command_init())
        } else {
            None
        },
    }
}

impl GlCommand {
    /// Consumes one `command` element whose start tag carried `attrs`.
    #[verifier::loop_isolation(false)]
    pub fn from_iter_and_attrs(events: &Vec<XmlEvent>, pos: usize, attrs: &str) -> (r: Result<
        (GlCommand, usize),
        ParseError,
    >)
        ensures
            match r {
                Ok((c, j)) => command_of(events.deep_view(), pos as int, attrs@) == Some((
                    c.deep_view(),
                    j as int,
                )) && pos < j <= events@.len(),
                Err(_) => command_of(events.deep_view(), pos as int, attrs@) is None,
            },
    {
        let ghost evs = events.deep_view();
        let ps = match parse_attributes(attrs) {
            Ok(v) => v,
            Err(e) => {
                return Err(e);
            },
        };
        let ghost pv = ps.deep_view();
        let pn = ps.len();
        let mut j: usize = 0;
        while j < pn
            invariant
                j <= pn,
                forall|x: int| 0 <= x < j ==> pv[x].key == "comment"@,
            decreases pn - j,
        {
            proof {
                assert(pv[j as int] == ps@[j as int].deep_view());
            }
            if !str_eq(ps[j].key.as_str(), "comment") {
                return Err(ParseError);
            }
            j += 1;
        }
        assert(command_attrs_ok(pv));
        let mut c = GlCommand {
            name: String::new(),
            proto: String::new(),
            proto_group: None,
            params: Vec::new(),
            glx_attrs: None,
            alias_of: None,
            vec_equivalent: None,
        };
        proof {
            assert(c.params.deep_view() =~= Seq::<GlCommandParamV>::empty());
            assert(c.deep_view() =~= command_init());
        }
        let n = events.len();
        let mut i: usize = pos;
        if i > n {
            return Err(ParseError);
        }
        loop
            invariant
                pos <= i <= n,
                command_loop(evs, pos as int, command_init()) == command_loop(
                    evs,
                    i as int,
                    c.deep_view(),
                ),
            decreases n - i,
        {
            if i == n {
                return Err(ParseError);
            }
            proof {
                assert(evs[i as int] == events@[i as int].deep_view());
            }
            match &events[i] {
                XmlEvent::End { name } => {
                    if str_eq(name.as_str(), "command") {
                        return Ok((c, i + 1));
                    } else {
                        return Err(ParseError);
                    }
                },
                XmlEvent::Start { name, attrs: sattrs } => {
                    if str_eq(name.as_str(), "proto") {
                        let ghost st0 = c.deep_view();
                        let pps = match parse_attributes(sattrs.as_str()) {
                            Ok(v) => v,
                            Err(e) => {
                                return Err(e);
                            },
                        };
                        let ghost ppv = pps.deep_view();
                        let ghost g0 = c.proto_group.deep_view();
                        let ppn = pps.len();
                        let mut k: usize = 0;
                        while k < ppn
                            invariant
                                k <= ppn,
                                proto_attrs_loop(ppv, 0, g0) == proto_attrs_loop(
                                    ppv,
                                    k as int,
                                    c.proto_group.deep_view(),
                                ),
                                c.deep_view() == (GlCommandV {
                                    proto_group: c.proto_group.deep_view(),
                                    ..st0
                                }),
                            decreases ppn - k,
                        {
                            proof {
                                assert(ppv[k as int] == pps@[k as int].deep_view());
                            }
                            let a = &pps[k];
                            if str_eq(a.key.as_str(), "group") {
                                c.proto_group = Some(a.value.clone());
                            } else {
                                return Err(ParseError);
                            }
                            k += 1;
                        }
                        let ghost nm0 = c.name@;
                        let ghost pr0 = c.proto@;
                        let ghost g1 = c.proto_group.deep_view();
                        let mut ii: usize = i + 1;
                        loop
                            invariant
                                i < ii <= n,
                                proto_loop(evs, i + 1 as int, nm0, pr0) == proto_loop(
                                    evs,
                                    ii as int,
                                    c.name@,
                                    c.proto@,
                                ),
                                c.deep_view() == (GlCommandV {
                                    name: c.name@,
                                    proto: c.proto@,
                                    proto_group: g1,
                                    ..st0
                                }),
                            decreases n - ii,
                        {
                            if ii == n {
                                return Err(ParseError);
                            }
                            proof {
                                assert(evs[ii as int] == events@[ii as int].deep_view());
                            }
                            match &events[ii] {
                                XmlEvent::End { name: ename } => {
                                    if str_eq(ename.as_str(), "proto") {
                                        ii += 1;
                                        break;
                                    } else {
                                        return Err(ParseError);
                                    }
                                },
                                XmlEvent::Text { text } => {
                                    c.proto.append(text.as_str());
                                    ii += 1;
                                },
                                XmlEvent::Start { name: sname, attrs: ssattrs } => {
                                    if str_eq(sname.as_str(), "name") && ssattrs.as_str().is_empty() {
                                        match grab_out_name_text(events, ii + 1) {
                                            Ok((t, j2)) => {
                                                c.name.append(t.as_str());
                                                c.proto.append(t.as_str());
                                                ii = j2;
                                            },
                                            Err(e) => {
                                                return Err(e);
                                            },
                                        }
                                    } else if str_eq(sname.as_str(), "ptype") && ssattrs.as_str().is_empty() {
                                        match grab_out_ptype_text(events, ii + 1) {
                                            Ok((t, j2)) => {
                                                c.proto.append(t.as_str());
                                                ii = j2;
                                            },
                                            Err(e) => {
                                                return Err(e);
                                            },
                                        }
                                    } else {
                                        return Err(ParseError);
                                    }
                                },
                                _ => {
                                    return Err(ParseError);
                                },
                            }
                        }
                        i = ii;
                    } else if str_eq(name.as_str(), "param") {
                        match GlCommandParam::from_iter_and_attrs(events, i + 1, sattrs.as_str()) {
                            Ok((p, j2)) => {
                                let ghost prev = c.params.deep_view();
                                let ghost pvw = p.deep_view();
                                c.params.push(p);
                                proof {
                                    assert(c.params.deep_view() =~= prev.push(pvw));
                                }
                                i = j2;
                            },
                            Err(e) => {
                                return Err(e);
                            },
                        }
                    } else {
                        return Err(ParseError);
                    }
                },
                XmlEvent::Empty { name, attrs: eattrs } => {
                    if str_eq(name.as_str(), "glx") {
                        c.glx_attrs = Some(eattrs.clone());
                        i += 1;
                    } else if str_eq(name.as_str(), "alias") {
                        let aps = match parse_attributes(eattrs.as_str()) {
                            Ok(v) => v,
                            Err(e) => {
                                return Err(e);
                            },
                        };
                        let ghost apv = aps.deep_view();
                        let ghost a0 = c.alias_of.deep_view();
                        let ghost st0 = c.deep_view();
                        let apn = aps.len();
                        let mut k: usize = 0;
                        while k < apn
                            invariant
                                k <= apn,
                                single_name_loop(apv, 0, a0) == single_name_loop(
                                    apv,
                                    k as int,
                                    c.alias_of.deep_view(),
                                ),
                                c.deep_view() == (GlCommandV {
                                    alias_of: c.alias_of.deep_view(),
                                    ..st0
                                }),
                            decreases apn - k,
                        {
                            proof {
                                assert(apv[k as int] == aps@[k as int].deep_view());
                            }
                            let a = &aps[k];
                            if str_eq(a.key.as_str(), "name") {
                                c.alias_of = Some(a.value.clone());
                            } else {
                                return Err(ParseError);
                            }
                            k += 1;
                        }
                        i += 1;
                    } else if str_eq(name.as_str(), "vecequiv") {
                        let vps = match parse_attributes(eattrs.as_str()) {
                            Ok(v) => v,
                            Err(e) => {
                                return Err(e);
                            },
                        };
                        let ghost vpv = vps.deep_view();
                        let ghost v0 = c.vec_equivalent.deep_view();
                        let ghost st0 = c.deep_view();
                        let vpn = vps.len();
                        let mut k: usize = 0;
                        while k < vpn
                            invariant
                                k <= vpn,
                                single_name_loop(vpv, 0, v0) == single_name_loop(
                                    vpv,
                                    k as int,
                                    c.vec_equivalent.deep_view(),
                                ),
                                c.deep_view() == (GlCommandV {
                                    vec_equivalent: c.vec_equivalent.deep_view(),
                                    ..st0
                                }),
                            decreases vpn - k,
                        {
                            proof {
                                assert(vpv[k as int] == vps@[k as int].deep_view());
                            }
                            let a = &vps[k];
                            if str_eq(a.key.as_str(), "name") {
                                c.vec_equivalent = Some(a.value.clone());
                            } else {
                                return Err(ParseError);
                            }
                            k += 1;
                        }
                        i += 1;
                    } else {
                        return Err(ParseError);
                    }
                },
                _ => {
                    return Err(ParseError);
                },
            }
        }
    }
}

/// Reads `command` elements until the section's `End` event, each one
/// appended to `acc`.
pub open spec fn commands_section(evs: Seq<XmlEventV>, i: int, acc: Seq<GlCommandV>) -> Option<
    (Seq<GlCommandV>, int),
>
    decreases evs.len() - i,
{
    if i < 0 || i >= evs.len() {
        None
    } else {
        match evs[i] {
            XmlEventV::End { name } => if name == "commands"@ {
                Some((acc, i + 1))
            } else {
                None
            },
            XmlEventV::Start { name, attrs } => if name == "command"@ {
                match command_of(evs, i + 1, attrs) {
                    Some((c, j)) => if i < j && j <= evs.len() {
                        commands_section(evs, j, acc.push(c))
                    } else {
                        None
                    },
                    None => None,
                }
            } else {
                None
            },
            _ => None,
        }
    }
}

/// Consumes one `commands` section, appending each command to `list` in
/// document order; on failure `list` is left as it was.
#[verifier::loop_isolation(false)]
pub fn consume_commands(list: &mut Vec<GlCommand>, events: &Vec<XmlEvent>, pos: usize) -> (r: Result<
    usize,
    ParseError,
>)
    ensures
        match r {
            Ok(j) => commands_section(events.deep_view(), pos as int, old(list).deep_view())
                == Some((final(list).deep_view(), j as int)) && pos < j <= events@.len(),
            Err(_) => commands_section(events.deep_view(), pos as int, old(list).deep_view())
                is None && final(list)@ == old(list)@,
        },
{
    let ghost evs = events.deep_view();
    let ghost acc0 = old(list).deep_view();
    let mut fresh: Vec<GlCommand> = Vec::new();
    let n = events.len();
    let mut i: usize = pos;
    if i > n {
        return Err(ParseError);
    }
    proof {
        assert(acc0 + fresh.deep_view() =~= acc0);
    }
    loop
        invariant
            pos <= i <= n,
            list@ == old(list)@,
            commands_section(evs, pos as int, acc0) == commands_section(
                evs,
                i as int,
                acc0 + fresh.deep_view(),
            ),
        decreases n - i,
    {
        if i == n {
            return Err(ParseError);
        }
        proof {
            assert(evs[i as int] == events@[i as int].deep_view());
        }
        match &events[i] {
            XmlEvent::End { name } => {
                if str_eq(name.as_str(), "commands") {
                    let ghost res = acc0 + fresh.deep_view();
                    list.append(&mut fresh);
                    proof {
                        assert(list.deep_view() =~= res);
                    }
                    return Ok(i + 1);
                } else {
                    return Err(ParseError);
                }
            },
            XmlEvent::Start { name, attrs } => {
                if str_eq(name.as_str(), "command") {
                    match GlCommand::from_iter_and_attrs(events, i + 1, attrs.as_str()) {
                        Ok((c, j)) => {
                            let ghost prev = fresh.deep_view();
                            let ghost cv = c.deep_view();
                            fresh.push(c);
                            proof {
                                assert(fresh.deep_view() =~= prev.push(cv));
                                assert(acc0 + prev.push(cv) =~= (acc0 + prev).push(cv));
                            }
                            i = j;
                        },
                        Err(e) => {
                            return Err(e);
                        },
                    }
                } else {
                    return Err(ParseError);
                }
            },
            _ => {
                return Err(ParseError);
            },
        }
    }
}

/// Reads a `feature` tag's attribute pairs: the API group, the name and the
/// version number.
pub open spec fn feature_attrs_loop(
    ps: Seq<AttributeV>,
    j: int,
    api: ApiGroup,
    nm: Seq<char>,
    num: Seq<char>,
) -> Option<(ApiGroup, Seq<char>, Seq<char>)>
    decreases ps.len() - j,
{
    if j < 0 || j >= ps.len() {
        Some((api, nm, num))
    } else {
        let a = ps[j];
        if a.key == "api"@ {
            match api_group_of(a.value) {
                Some(g) => feature_attrs_loop(ps, j + 1, g, nm, num),
                None => None,
            }
        } else if a.key == "name"@ {
            feature_attrs_loop(ps, j + 1, api, nm + a.value, num)
        } else if a.key == "number"@ {
            feature_attrs_loop(ps, j + 1, api, nm, num + a.value)
        } else {
            None
        }
    }
}

/// Reads a `remove` block's attribute pairs: comments are skipped and
/// `profile` sets the block's profile scope.
pub open spec fn profile_attrs_loop(ps: Seq<AttributeV>, j: int, p: Option<Seq<char>>) -> Option<
    Option<Seq<char>>,
>
    decreases ps.len() - j,
{
    if j < 0 || j >= ps.len() {
        Some(p)
    } else if ps[j].key == "comment"@ {
        profile_attrs_loop(ps, j + 1, p)
    } else if ps[j].key == "profile"@ {
        profile_attrs_loop(ps, j + 1, Some(ps[j].value))
    } else {
        None
    }
}

/// Reads a `require` block's attribute pairs: comments are skipped,
/// `profile` sets the block's profile scope and `api` its group scope.
pub open spec fn require_attrs_loop(
    ps: Seq<AttributeV>,
    j: int,
    p: Option<Seq<char>>,
    a: Option<ApiGroup>,
) -> Option<(Option<Seq<char>>, Option<ApiGroup>)>
    decreases ps.len() - j,
{
    if j < 0 || j >= ps.len() {
        Some((p, a))
    } else if ps[j].key == "comment"@ {
        require_attrs_loop(ps, j + 1, p, a)
    } else if ps[j].key == "profile"@ {
        require_attrs_loop(ps, j + 1, Some(ps[j].value), a)
    } else if ps[j].key == "api"@ {
        match api_group_of(ps[j].value) {
            Some(g) => require_attrs_loop(ps, j + 1, p, Some(g)),
            None => None,
        }
    } else {
        None
    }
}

/// Reads one entry tag's attribute pairs: each `name` contributes one
/// referenced name, comments are skipped.
pub open spec fn entry_names_loop(ps: Seq<AttributeV>, j: int, acc: Seq<Seq<char>>) -> Option<
    Seq<Seq<char>>,
>
    decreases ps.len() - j,
{
    if j < 0 || j >= ps.len() {
        Some(acc)
    } else if ps[j].key == "name"@ {
        entry_names_loop(ps, j + 1, acc.push(ps[j].value))
    } else if ps[j].key == "comment"@ {
        entry_names_loop(ps, j + 1, acc)
    } else {
        None
    }
}

/// The reference an entry tag's name stands for: `type`, `enum` or
/// `command`; used only for those three tags.
pub open spec fn adj_of_tag(tag: Seq<char>, n: Seq<char>) -> ReqRemV {
    if tag == "type"@ {
        ReqRemV::Type(n)
    } else if tag == "enum"@ {
        ReqRemV::Enum(n)
    } else {
        ReqRemV::Command(n)
    }
}

/// The requirements the names of one entry tag stand for, under the
/// block's profile and group scopes.
pub open spec fn reqs_of_names(
    ns: Seq<Seq<char>>,
    p: Option<Seq<char>>,
    a: Option<ApiGroup>,
    tag: Seq<char>,
) -> Seq<GlRequirementV> {
    ns.map_values(|n: Seq<char>| GlRequirementV { profile: p, api: a, adjustment: adj_of_tag(tag, n) })
}

/// The removals the names of one entry tag stand for, under the block's
/// profile scope.
pub open spec fn rems_of_names(ns: Seq<Seq<char>>, p: Option<Seq<char>>, tag: Seq<char>) -> Seq<
    GlRemovalV,
> {
    ns.map_values(|n: Seq<char>| GlRemovalV { profile: p, adjustment: adj_of_tag(tag, n) })
}

/// Reads `type`, `enum` and `command` entries until the block's `End`
/// event, appending one requirement per referenced name.
pub open spec fn require_items(
    evs: Seq<XmlEventV>,
    i: int,
    p: Option<Seq<char>>,
    a: Option<ApiGroup>,
    acc: Seq<GlRequirementV>,
) -> Option<(Seq<GlRequirementV>, int)>
    decreases evs.len() - i,
{
    if i < 0 || i >= evs.len() {
        None
    } else {
        match evs[i] {
            XmlEventV::End { name } => if name == "require"@ {
                Some((acc, i + 1))
            } else {
                None
            },
            XmlEventV::Empty { name, attrs } => if name == "type"@ || name == "enum"@ || name
                == "command"@ {
                match attrs_of(attrs) {
                    None => None,
                    Some(ps) => match entry_names_loop(ps, 0, Seq::empty()) {
                        None => None,
                        Some(ns) => require_items(evs, i + 1, p, a, acc + reqs_of_names(ns, p, a, name)),
                    },
                }
            } else {
                None
            },
            _ => None,
        }
    }
}

/// Reads `type`, `enum` and `command` entries until the block's `End`
/// event, appending one removal per referenced name.
pub open spec fn remove_items(
    evs: Seq<XmlEventV>,
    i: int,
    p: Option<Seq<char>>,
    acc: Seq<GlRemovalV>,
) -> Option<(Seq<GlRemovalV>, int)>
    decreases evs.len() - i,
{
    if i < 0 || i >= evs.len() {
        None
    } else {
        match evs[i] {
            XmlEventV::End { name } => if name == "remove"@ {
                Some((acc, i + 1))
            } else {
                None
            },
            XmlEventV::Empty { name, attrs } => if name == "type"@ || name == "enum"@ || name
                == "command"@ {
                match attrs_of(attrs) {
                    None => None,
                    Some(ps) => match entry_names_loop(ps, 0, Seq::empty()) {
                        None => None,
                        Some(ns) => remove_items(evs, i + 1, p, acc + rems_of_names(ns, p, name)),
                    },
                }
            } else {
                None
            },
            _ => None,
        }
    }
}

/// Consumes one `require` block's entries, appending each requirement to
/// `list`; on failure `list` is left as it was.
#[verifier::loop_isolation(false)]
fn consume_require_items(
    list: &mut Vec<GlRequirement>,
    events: &Vec<XmlEvent>,
    pos: usize,
    profile: &Option<String>,
    api: Option<ApiGroup>,
) -> (r: Result<usize, ParseError>)
    ensures
        match r {
            Ok(j) => require_items(
                events.deep_view(),
                pos as int,
                profile.deep_view(),
                api,
                old(list).deep_view(),
            ) == Some((final(list).deep_view(), j as int)) && pos < j <= events@.len(),
            Err(_) => require_items(
                events.deep_view(),
                pos as int,
                profile.deep_view(),
                api,
                old(list).deep_view(),
            ) is None && final(list)@ == old(list)@,
        },
{
    let ghost evs = events.deep_view();
    let ghost acc0 = old(list).deep_view();
    let ghost p = profile.deep_view();
    let mut fresh: Vec<GlRequirement> = Vec::new();
    let n = events.len();
    let mut i: usize = pos;
    if i > n {
        return Err(ParseError);
    }
    proof {
        assert(acc0 + fresh.deep_view() =~= acc0);
    }
    loop
        invariant
            pos <= i <= n,
            list@ == old(list)@,
            require_items(evs, pos as int, p, api, acc0) == require_items(
                evs,
                i as int,
                p,
                api,
                acc0 + fresh.deep_view(),
            ),
        decreases n - i,
    {
        if i == n {
            return Err(ParseError);
        }
        proof {
            assert(evs[i as int] == events@[i as int].deep_view());
        }
        match &events[i] {
            XmlEvent::End { name } => {
                if str_eq(name.as_str(), "require") {
                    let ghost res = acc0 + fresh.deep_view();
                    list.append(&mut fresh);
                    proof {
                        assert(list.deep_view() =~= res);
                    }
                    return Ok(i + 1);
                } else {
                    return Err(ParseError);
                }
            },
            XmlEvent::Empty { name, attrs } => {
                let is_type = str_eq(name.as_str(), "type");
                let is_enum = str_eq(name.as_str(), "enum");
                let is_command = str_eq(name.as_str(), "command");
                if is_type || is_enum || is_command {
                    let ghost tag = name@;
                    let eps = match parse_attributes(attrs.as_str()) {
                        Ok(v) => v,
                        Err(e) => {
                            return Err(e);
                        },
                    };
                    let ghost epv = eps.deep_view();
                    let ghost before = fresh.deep_view();
                    let ghost mut ns: Seq<Seq<char>> = Seq::empty();
                    let epn = eps.len();
                    let mut k: usize = 0;
                    proof {
                        assert(reqs_of_names(ns, p, api, tag) =~= Seq::<GlRequirementV>::empty());
                        assert(before + reqs_of_names(ns, p, api, tag) =~= before);
                    }
                    while k < epn
                        invariant
                            k <= epn,
                            entry_names_loop(epv, 0, Seq::empty()) == entry_names_loop(
                                epv,
                                k as int,
                                ns,
                            ),
                            fresh.deep_view() == before + reqs_of_names(ns, p, api, tag),
                            list@ == old(list)@,
                        decreases epn - k,
                    {
                        proof {
                            assert(epv[k as int] == eps@[k as int].deep_view());
                        }
                        let a = &eps[k];
                        if str_eq(a.key.as_str(), "name") {
                            let adjustment = if is_type {
                                ReqRem::Type(a.value.clone())
                            } else if is_enum {
                                ReqRem::Enum(a.value.clone())
                            } else {
                                ReqRem::Command(a.value.clone())
                            };
                            let req = GlRequirement {
                                profile: clone_opt_string(profile),
                                api,
                                adjustment,
                            };
                            let ghost rv = req.deep_view();
                            let ghost prevf = fresh.deep_view();
                            fresh.push(req);
                            proof {
                                assert(rv == (GlRequirementV {
                                    profile: p,
                                    api: api,
                                    adjustment: adj_of_tag(tag, epv[k as int].value),
                                }));
                                assert(fresh.deep_view() =~= prevf.push(rv));
                                assert(before + reqs_of_names(ns.push(epv[k as int].value), p, api, tag)
                                    =~= prevf.push(rv));
                            }
                            proof {
                                ns = ns.push(epv[k as int].value);
                            }
                        } else if str_eq(a.key.as_str(), "comment") {
                        } else {
                            return Err(ParseError);
                        }
                        k += 1;
                    }
                    proof {
                        assert(acc0 + fresh.deep_view() =~= (acc0 + before) + reqs_of_names(
                            ns,
                            p,
                            api,
                            tag,
                        ));
                    }
                    i += 1;
                } else {
                    return Err(ParseError);
                }
            },
            _ => {
                return Err(ParseError);
            },
        }
    }
}

/// Consumes one `remove` block's entries, appending each removal to
/// `list`; on failure `list` is left as it was.
#[verifier::loop_isolation(false)]
fn consume_remove_items(
    list: &mut Vec<GlRemoval>,
    events: &Vec<XmlEvent>,
    pos: usize,
    profile: &Option<String>,
) -> (r: Result<usize, ParseError>)
    ensures
        match r {
            Ok(j) => remove_items(
                events.deep_view(),
                pos as int,
                profile.deep_view(),
                old(list).deep_view(),
            ) == Some((final(list).deep_view(), j as int)) && pos < j <= events@.len(),
            Err(_) => remove_items(
                events.deep_view(),
                pos as int,
                profile.deep_view(),
                old(list).deep_view(),
            ) is None && final(list)@ == old(list)@,
        },
{
    let ghost evs = events.deep_view();
    let ghost acc0 = old(list).deep_view();
    let ghost p = profile.deep_view();
    let mut fresh: Vec<GlRemoval> = Vec::new();
    let n = events.len();
    let mut i: usize = pos;
    if i > n {
        return Err(ParseError);
    }
    proof {
        assert(acc0 + fresh.deep_view() =~= acc0);
    }
    loop
        invariant
            pos <= i <= n,
            list@ == old(list)@,
            remove_items(evs, pos as int, p, acc0) == remove_items(
                evs,
                i as int,
                p,
                acc0 + fresh.deep_view(),
            ),
        decreases n - i,
    {
        if i == n {
            return Err(ParseError);
        }
        proof {
            assert(evs[i as int] == events@[i as int].deep_view());
        }
        match &events[i] {
            XmlEvent::End { name } => {
                if str_eq(name.as_str(), "remove") {
                    let ghost res = acc0 + fresh.deep_view();
                    list.append(&mut fresh);
                    proof {
                        assert(list.deep_view() =~= res);
                    }
                    return Ok(i + 1);
                } else {
                    return Err(ParseError);
                }
            },
            XmlEvent::Empty { name, attrs } => {
                let is_type = str_eq(name.as_str(), "type");
                let is_enum = str_eq(name.as_str(), "enum");
                let is_command = str_eq(name.as_str(), "command");
                if is_type || is_enum || is_command {
                    let ghost tag = name@;
                    let eps = match parse_attributes(attrs.as_str()) {
                        Ok(v) => v,
                        Err(e) => {
                            return Err(e);
                        },
                    };
                    let ghost epv = eps.deep_view();
                    let ghost before = fresh.deep_view();
                    let ghost mut ns: Seq<Seq<char>> = Seq::empty();
                    let epn = eps.len();
                    let mut k: usize = 0;
                    proof {
                        assert(rems_of_names(ns, p, tag) =~= Seq::<GlRemovalV>::empty());
                        assert(before + rems_of_names(ns, p, tag) =~= before);
                    }
                    while k < epn
                        invariant
                            k <= epn,
                            entry_names_loop(epv, 0, Seq::empty()) == entry_names_loop(
                                epv,
                                k as int,
                                ns,
                            ),
                            fresh.deep_view() == before + rems_of_names(ns, p, tag),
                            list@ == old(list)@,
                        decreases epn - k,
                    {
                        proof {
                            assert(epv[k as int] == eps@[k as int].deep_view());
                        }
                        let a = &eps[k];
                        if str_eq(a.key.as_str(), "name") {
                            let adjustment = if is_type {
                                ReqRem::Type(a.value.clone())
                            } else if is_enum {
                                ReqRem::Enum(a.value.clone())
                            } else {
                                ReqRem::Command(a.value.clone())
                            };
                            let rem = GlRemoval { profile: clone_opt_string(profile), adjustment };
                            let ghost rv = rem.deep_view();
                            let ghost prevf = fresh.deep_view();
                            fresh.push(rem);
                            proof {
                                assert(rv == (GlRemovalV {
                                    profile: p,
                                    adjustment: adj_of_tag(tag, epv[k as int].value),
                                }));
                                assert(fresh.deep_view() =~= prevf.push(rv));
                                assert(before + rems_of_names(ns.push(epv[k as int].value), p, tag)
                                    =~= prevf.push(rv));
                            }
                            proof {
                                ns = ns.push(epv[k as int].value);
                            }
                        } else if str_eq(a.key.as_str(), "comment") {
                        } else {
                            return Err(ParseError);
                        }
                        k += 1;
                    }
                    proof {
                        assert(acc0 + fresh.deep_view() =~= (acc0 + before) + rems_of_names(
                            ns,
                            p,
                            tag,
                        ));
                    }
                    i += 1;
                } else {
                    return Err(ParseError);
                }
            },
            _ => {
                return Err(ParseError);
            },
        }
    }
}

/// Reads a feature's `require` and `remove` blocks until its `End` event,
/// accumulating requirements and removals in document order.
pub open spec fn feature_loop(evs: Seq<XmlEventV>, i: int, st: GlFeatureV) -> Option<
    (GlFeatureV, int),
>
    decreases evs.len() - i,
{
    if i < 0 || i >= evs.len() {
        None
    } else {
        match evs[i] {
            XmlEventV::End { name } => if name == "feature"@ {
                Some((st, i + 1))
            } else {
                None
            },
            XmlEventV::Start { name, attrs } => if name == "require"@ {
                match attrs_of(attrs) {
                    None => None,
                    Some(ps) => match require_attrs_loop(ps, 0, None, None) {
                        None => None,
                        Some((p, a)) => match require_items(evs, i + 1, p, a, st.required) {
                            Some((rs, j)) => if i < j && j <= evs.len() {
                                feature_loop(evs, j, GlFeatureV { required: rs, ..st })
                            } else {
                                None
                            },
                            None => None,
                        },
                    },
                }
            } else if name == "remove"@ {
                match attrs_of(attrs) {
                    None => None,
                    Some(ps) => match profile_attrs_loop(ps, 0, None) {
                        None => None,
                        Some(p) => match remove_items(evs, i + 1, p, st.remove) {
                            Some((rs, j)) => if i < j && j <= evs.len() {
                                feature_loop(evs, j, GlFeatureV { remove: rs, ..st })
                            } else {
                                None
                            },
                            None => None,
                        },
                    },
                }
            } else {
                None
            },
            XmlEventV::Empty { name, attrs } => if name == "require"@ {
                feature_loop(evs, i + 1, st)
            } else {
                None
            },
            _ => None,
        }
    }
}

/// One whole `feature` element: its attribute list gives the group, name
/// and version, then its blocks accumulate requirements and removals.
pub open spec fn feature_of(evs: Seq<XmlEventV>, i: int, attrs: Seq<char>) -> Option<
    (GlFeatureV, int),
> {
    match attrs_of(attrs) {
        None => None,
        Some(ps) => match feature_attrs_loop(ps, 0, ApiGroup::Gl, Seq::empty(), Seq::empty()) {
            None => None,
            Some((api, nm, num)) => feature_loop(
                evs,
                i,
                GlFeatureV {
                    api: api,
                    name: nm,
                    number: num,
                    required: Seq::empty(),
                    remove: Seq::empty(),
                },
            ),
        },
    }
}

impl GlFeature {
    /// Consumes one `feature` element whose start tag carried `attrs`.
    #[verifier::loop_isolation(false)]
    pub fn from_iter_and_attrs(events: &Vec<XmlEvent>, pos: usize, attrs: &str) -> (r: Result<
        (GlFeature, usize),
        ParseError,
    >)
        ensures
            match r {
                Ok((f, j)) => feature_of(events.deep_view(), pos as int, attrs@) == Some((
                    f.deep_view(),
                    j as int,
                )) && pos < j <= events@.len(),
                Err(_) => feature_of(events.deep_view(), pos as int, attrs@) is None,
            },
    {
        let ghost evs = events.deep_view();
        let ps = match parse_attributes(attrs) {
            Ok(v) => v,
            Err(e) => {
                return Err(e);
            },
        };
        let ghost pv = ps.deep_view();
        let mut f = GlFeature {
            api: ApiGroup::Gl,
            name: String::new(),
            number: String::new(),
            required: Vec::new(),
            remove: Vec::new(),
        };
        proof {
            assert(f.required.deep_view() =~= Seq::<GlRequirementV>::empty());
            assert(f.remove.deep_view() =~= Seq::<GlRemovalV>::empty());
        }
        let pn = ps.len();
        let mut j: usize = 0;
        while j < pn
            invariant
                j <= pn,
                feature_attrs_loop(pv, 0, ApiGroup::Gl, Seq::empty(), Seq::empty())
                    == feature_attrs_loop(pv, j as int, f.api, f.name@, f.number@),
                f.required.deep_view() == Seq::<GlRequirementV>::empty(),
                f.remove.deep_view() == Seq::<GlRemovalV>::empty(),
            decreases pn - j,
        {
            proof {
                assert(pv[j as int] == ps@[j as int].deep_view());
            }
            let a = &ps[j];
            if str_eq(a.key.as_str(), "api") {
                match ApiGroup::from(a.value.as_str()) {
                    Some(g) => {
                        f.api = g;
                    },
                    None => {
                        return Err(ParseError);
                    },
                }
            } else if str_eq(a.key.as_str(), "name") {
                f.name.append(a.value.as_str());
            } else if str_eq(a.key.as_str(), "number") {
                f.number.append(a.value.as_str());
            } else {
                return Err(ParseError);
            }
            j += 1;
        }
        let ghost f0 = f.deep_view();
        let n = events.len();
        let mut i: usize = pos;
        if i > n {
            return Err(ParseError);
        }
        loop
            invariant
                pos <= i <= n,
                feature_loop(evs, pos as int, f0) == feature_loop(evs, i as int, f.deep_view()),
            decreases n - i,
        {
            if i == n {
                return Err(ParseError);
            }
            proof {
                assert(evs[i as int] == events@[i as int].deep_view());
            }
            match &events[i] {
                XmlEvent::End { name } => {
                    if str_eq(name.as_str(), "feature") {
                        return Ok((f, i + 1));
                    } else {
                        return Err(ParseError);
                    }
                },
                XmlEvent::Start { name, attrs: sattrs } => {
                    if str_eq(name.as_str(), "require") {
                        let bps = match parse_attributes(sattrs.as_str()) {
                            Ok(v) => v,
                            Err(e) => {
                                return Err(e);
                            },
                        };
                        let ghost bpv = bps.deep_view();
                        let mut profile: Option<String> = None;
                        let mut api: Option<ApiGroup> = None;
                        let bpn = bps.len();
                        let mut k: usize = 0;
                        while k < bpn
                            invariant
                                k <= bpn,
                                require_attrs_loop(bpv, 0, None, None) == require_attrs_loop(
                                    bpv,
                                    k as int,
                                    profile.deep_view(),
                                    api,
                                ),
                            decreases bpn - k,
                        {
                            proof {
                                assert(bpv[k as int] == bps@[k as int].deep_view());
                            }
                            let a = &bps[k];
                            if str_eq(a.key.as_str(), "comment") {
                            } else if str_eq(a.key.as_str(), "profile") {
                                profile = Some(a.value.clone());
                            } else if str_eq(a.key.as_str(), "api") {
                                match ApiGroup::from(a.value.as_str()) {
                                    Some(g) => {
                                        api = Some(g);
                                    },
                                    None => {
                                        return Err(ParseError);
                                    },
                                }
                            } else {
                                return Err(ParseError);
                            }
                            k += 1;
                        }
                        let ghost st0 = f.deep_view();
                        match consume_require_items(&mut f.required, events, i + 1, &profile, api) {
                            Ok(j2) => {
                                proof {
                                    assert(f.deep_view() == (GlFeatureV {
                                        required: f.required.deep_view(),
                                        ..st0
                                    }));
                                }
                                i = j2;
                            },
                            Err(e) => {
                                return Err(e);
                            },
                        }
                    } else if str_eq(name.as_str(), "remove") {
                        let bps = match parse_attributes(sattrs.as_str()) {
                            Ok(v) => v,
                            Err(e) => {
                                return Err(e);
                            },
                        };
                        let ghost bpv = bps.deep_view();
                        let mut profile: Option<String> = None;
                        let bpn = bps.len();
                        let mut k: usize = 0;
                        while k < bpn
                            invariant
                                k <= bpn,
                                profile_attrs_loop(bpv, 0, None) == profile_attrs_loop(
                                    bpv,
                                    k as int,
                                    profile.deep_view(),
                                ),
                            decreases bpn - k,
                        {
                            proof {
                                assert(bpv[k as int] == bps@[k as int].deep_view());
                            }
                            let a = &bps[k];
                            if str_eq(a.key.as_str(), "comment") {
                            } else if str_eq(a.key.as_str(), "profile") {
                                profile = Some(a.value.clone());
                            } else {
                                return Err(ParseError);
                            }
                            k += 1;
                        }
                        let ghost st0 = f.deep_view();
                        match consume_remove_items(&mut f.remove, events, i + 1, &profile) {
                            Ok(j2) => {
                                proof {
                                    assert(f.deep_view() == (GlFeatureV {
                                        remove: f.remove.deep_view(),
                                        ..st0
                                    }));
                                }
                                i = j2;
                            },
                            Err(e) => {
                                return Err(e);
                            },
                        }
                    } else {
                        return Err(ParseError);
                    }
                },
                XmlEvent::Empty { name, attrs: _eattrs } => {
                    if str_eq(name.as_str(), "require") {
                        i += 1;
                    } else {
                        return Err(ParseError);
                    }
                },
                _ => {
                    return Err(ParseError);
                },
            }
        }
    }
}

/// Reads an `extension` tag's attribute pairs: the name, the supported-on
/// string, and comments which are skipped.
pub open spec fn ext_attrs_loop(
    ps: Seq<AttributeV>,
    j: int,
    nm: Seq<char>,
    sup: Seq<char>,
) -> Option<(Seq<char>, Seq<char>)>
    decreases ps.len() - j,
{
    if j < 0 || j >= ps.len() {
        Some((nm, sup))
    } else if ps[j].key == "name"@ {
        ext_attrs_loop(ps, j + 1, nm + ps[j].value, sup)
    } else if ps[j].key == "supported"@ {
        ext_attrs_loop(ps, j + 1, nm, sup + ps[j].value)
    } else if ps[j].key == "comment"@ {
        ext_attrs_loop(ps, j + 1, nm, sup)
    } else {
        None
    }
}

/// Reads a self-closing `extension` tag's attribute pairs: only the name
/// and the supported-on string are known there.
pub open spec fn ext_empty_attrs_loop(
    ps: Seq<AttributeV>,
    j: int,
    nm: Seq<char>,
    sup: Seq<char>,
) -> Option<(Seq<char>, Seq<char>)>
    decreases ps.len() - j,
{
    if j < 0 || j >= ps.len() {
        Some((nm, sup))
    } else if ps[j].key == "name"@ {
        ext_empty_attrs_loop(ps, j + 1, nm + ps[j].value, sup)
    } else if ps[j].key == "supported"@ {
        ext_empty_attrs_loop(ps, j + 1, nm, sup + ps[j].value)
    } else {
        None
    }
}

/// Reads an extension's `require` blocks until its `End` event.
pub open spec fn ext_loop(evs: Seq<XmlEventV>, i: int, st: GlExtensionV) -> Option<
    (GlExtensionV, int),
>
    decreases evs.len() - i,
{
    if i < 0 || i >= evs.len() {
        None
    } else {
        match evs[i] {
            XmlEventV::End { name } => if name == "extension"@ {
                Some((st, i + 1))
            } else {
                None
            },
            XmlEventV::Start { name, attrs } => if name == "require"@ {
                match attrs_of(attrs) {
                    None => None,
                    Some(ps) => match require_attrs_loop(ps, 0, None, None) {
                        None => None,
                        Some((p, a)) => match require_items(evs, i + 1, p, a, st.required) {
                            Some((rs, j)) => if i < j && j <= evs.len() {
                                ext_loop(evs, j, GlExtensionV { required: rs, ..st })
                            } else {
                                None
                            },
                            None => None,
                        },
                    },
                }
            } else {
                None
            },
            _ => None,
        }
    }
}

/// One whole `extension` element: its attribute list gives the name and
/// supported-on string, then its `require` blocks accumulate requirements.
pub open spec fn extension_of(evs: Seq<XmlEventV>, i: int, attrs: Seq<char>) -> Option<
    (GlExtensionV, int),
> {
    match attrs_of(attrs) {
        None => None,
        Some(ps) => match ext_attrs_loop(ps, 0, Seq::empty(), Seq::empty()) {
            None => None,
            Some((nm, sup)) => ext_loop(
                evs,
                i,
                GlExtensionV { name: nm, supported: sup, required: Seq::empty() },
            ),
        },
    }
}

impl GlExtension {
    /// Consumes one `extension` element whose start tag carried `attrs`.
    #[verifier::loop_isolation(false)]
    pub fn from_iter_and_attrs(events: &Vec<XmlEvent>, pos: usize, attrs: &str) -> (r: Result<
        (GlExtension, usize),
        ParseError,
    >)
        ensures
            match r {
                Ok((x, j)) => extension_of(events.deep_view(), pos as int, attrs@) == Some((
                    x.deep_view(),
                    j as int,
                )) && pos < j <= events@.len(),
                Err(_) => extension_of(events.deep_view(), pos as int, attrs@) is None,
            },
    {
        let ghost evs = events.deep_view();
        let ps = match parse_attributes(attrs) {
            Ok(v) => v,
            Err(e) => {
                return Err(e);
            },
        };
        let ghost pv = ps.deep_view();
        let mut x = GlExtension { name: String::new(), supported: String::new(), required: Vec::new() };
        proof {
            assert(x.required.deep_view() =~= Seq::<GlRequirementV>::empty());
        }
        let pn = ps.len();
        let mut j: usize = 0;
        while j < pn
            invariant
                j <= pn,
                ext_attrs_loop(pv, 0, Seq::empty(), Seq::empty()) == ext_attrs_loop(
                    pv,
                    j as int,
                    x.name@,
                    x.supported@,
                ),
                x.required.deep_view() == Seq::<GlRequirementV>::empty(),
            decreases pn - j,
        {
            proof {
                assert(pv[j as int] == ps@[j as int].deep_view());
            }
            let a = &ps[j];
            if str_eq(a.key.as_str(), "name") {
                x.name.append(a.value.as_str());
            } else if str_eq(a.key.as_str(), "supported") {
                x.supported.append(a.value.as_str());
            } else if str_eq(a.key.as_str(), "comment") {
            } else {
                return Err(ParseError);
            }
            j += 1;
        }
        let ghost x0 = x.deep_view();
        let n = events.len();
        let mut i: usize = pos;
        if i > n {
            return Err(ParseError);
        }
        loop
            invariant
                pos <= i <= n,
                ext_loop(evs, pos as int, x0) == ext_loop(evs, i as int, x.deep_view()),
            decreases n - i,
        {
            if i == n {
                return Err(ParseError);
            }
            proof {
                assert(evs[i as int] == events@[i as int].deep_view());
            }
            match &events[i] {
                XmlEvent::End { name } => {
                    if str_eq(name.as_str(), "extension") {
                        return Ok((x, i + 1));
                    } else {
                        return Err(ParseError);
                    }
                },
                XmlEvent::Start { name, attrs: sattrs } => {
                    if str_eq(name.as_str(), "require") {
                        let bps = match parse_attributes(sattrs.as_str()) {
                            Ok(v) => v,
                            Err(e) => {
                                return Err(e);
                            },
                        };
                        let ghost bpv = bps.deep_view();
                        let mut profile: Option<String> = None;
                        let mut api: Option<ApiGroup> = None;
                        let bpn = bps.len();
                        let mut k: usize = 0;
                        while k < bpn
                            invariant
                                k <= bpn,
                                require_attrs_loop(bpv, 0, None, None)
                                    == require_attrs_loop(
                                    bpv,
                                    k as int,
                                    profile.deep_view(),
                                    api,
                                ),
                            decreases bpn - k,
                        {
                            proof {
                                assert(bpv[k as int] == bps@[k as int].deep_view());
                            }
                            let a = &bps[k];
                            if str_eq(a.key.as_str(), "comment") {
                            } else if str_eq(a.key.as_str(), "profile") {
                                profile = Some(a.value.clone());
                            } else if str_eq(a.key.as_str(), "api") {
                                match ApiGroup::from(a.value.as_str()) {
                                    Some(g) => {
                                        api = Some(g);
                                    },
                                    None => {
                                        return Err(ParseError);
                                    },
                                }
                            } else {
                                return Err(ParseError);
                            }
                            k += 1;
                        }
                        let ghost st0 = x.deep_view();
                        match consume_require_items(&mut x.required, events, i + 1, &profile, api) {
                            Ok(j2) => {
                                proof {
                                    assert(x.deep_view() == (GlExtensionV {
                                        required: x.required.deep_view(),
                                        ..st0
                                    }));
                                }
                                i = j2;
                            },
                            Err(e) => {
                                return Err(e);
                            },
                        }
                    } else {
                        return Err(ParseError);
                    }
                },
                _ => {
                    return Err(ParseError);
                },
            }
        }
    }
}

/// Reads `extension` elements until the section's `End` event, each one
/// appended to `acc`; a self-closing extension carries only its attribute
/// list.
pub open spec fn extensions_section(evs: Seq<XmlEventV>, i: int, acc: Seq<GlExtensionV>) -> Option<
    (Seq<GlExtensionV>, int),
>
    decreases evs.len() - i,
{
    if i < 0 || i >= evs.len() {
        None
    } else {
        match evs[i] {
            XmlEventV::End { name } => if name == "extensions"@ {
                Some((acc, i + 1))
            } else {
                None
            },
            XmlEventV::Start { name, attrs } => if name == "extension"@ {
                match extension_of(evs, i + 1, attrs) {
                    Some((x, j)) => if i < j && j <= evs.len() {
                        extensions_section(evs, j, acc.push(x))
                    } else {
                        None
                    },
                    None => None,
                }
            } else {
                None
            },
            XmlEventV::Empty { name, attrs } => if name == "extension"@ {
                match attrs_of(attrs) {
                    None => None,
                    Some(ps) => match ext_empty_attrs_loop(ps, 0, Seq::empty(), Seq::empty()) {
                        None => None,
                        Some((nm, sup)) => extensions_section(
                            evs,
                            i + 1,
                            acc.push(GlExtensionV { name: nm, supported: sup, required: Seq::empty() }),
                        ),
                    },
                }
            } else {
                None
            },
            _ => None,
        }
    }
}

/// Consumes one `extensions` section, appending each extension to `list`
/// in document order; on failure `list` is left as it was.
#[verifier::loop_isolation(false)]
pub fn consume_extensions(list: &mut Vec<GlExtension>, events: &Vec<XmlEvent>, pos: usize) -> (r: Result<
    usize,
    ParseError,
>)
    ensures
        match r {
            Ok(j) => extensions_section(events.deep_view(), pos as int, old(list).deep_view())
                == Some((final(list).deep_view(), j as int)) && pos < j <= events@.len(),
            Err(_) => extensions_section(events.deep_view(), pos as int, old(list).deep_view())
                is None && final(list)@ == old(list)@,
        },
{
    let ghost evs = events.deep_view();
    let ghost acc0 = old(list).deep_view();
    let mut fresh: Vec<GlExtension> = Vec::new();
    let n = events.len();
    let mut i: usize = pos;
    if i > n {
        return Err(ParseError);
    }
    proof {
        assert(acc0 + fresh.deep_view() =~= acc0);
    }
    loop
        invariant
            pos <= i <= n,
            list@ == old(list)@,
            extensions_section(evs, pos as int, acc0) == extensions_section(
                evs,
                i as int,
                acc0 + fresh.deep_view(),
            ),
        decreases n - i,
    {
        if i == n {
            return Err(ParseError);
        }
        proof {
            assert(evs[i as int] == events@[i as int].deep_view());
        }
        match &events[i] {
            XmlEvent::End { name } => {
                if str_eq(name.as_str(), "extensions") {
                    let ghost res = acc0 + fresh.deep_view();
                    list.append(&mut fresh);
                    proof {
                        assert(list.deep_view() =~= res);
                    }
                    return Ok(i + 1);
                } else {
                    return Err(ParseError);
                }
            },
            XmlEvent::Start { name, attrs } => {
                if str_eq(name.as_str(), "extension") {
                    match GlExtension::from_iter_and_attrs(events, i + 1, attrs.as_str()) {
                        Ok((x, j)) => {
                            let ghost prev = fresh.deep_view();
                            let ghost xv = x.deep_view();
                            fresh.push(x);
                            proof {
                                assert(fresh.deep_view() =~= prev.push(xv));
                                assert(acc0 + prev.push(xv) =~= (acc0 + prev).push(xv));
                            }
                            i = j;
                        },
                        Err(e) => {
                            return Err(e);
                        },
                    }
                } else {
                    return Err(ParseError);
                }
            },
            XmlEvent::Empty { name, attrs } => {
                if str_eq(name.as_str(), "extension") {
                    let eps = match parse_attributes(attrs.as_str()) {
                        Ok(v) => v,
                        Err(e) => {
                            return Err(e);
                        },
                    };
                    let ghost epv = eps.deep_view();
                    let mut x = GlExtension {
                        name: String::new(),
                        supported: String::new(),
                        required: Vec::new(),
                    };
                    proof {
                        assert(x.required.deep_view() =~= Seq::<GlRequirementV>::empty());
                    }
                    let epn = eps.len();
                    let mut k: usize = 0;
                    while k < epn
                        invariant
                            k <= epn,
                            ext_empty_attrs_loop(epv, 0, Seq::empty(), Seq::empty())
                                == ext_empty_attrs_loop(epv, k as int, x.name@, x.supported@),
                            x.required.deep_view() == Seq::<GlRequirementV>::empty(),
                            list@ == old(list)@,
                        decreases epn - k,
                    {
                        proof {
                            assert(epv[k as int] == eps@[k as int].deep_view());
                        }
                        let a = &eps[k];
                        if str_eq(a.key.as_str(), "name") {
                            x.name.append(a.value.as_str());
                        } else if str_eq(a.key.as_str(), "supported") {
                            x.supported.append(a.value.as_str());
                        } else {
                            return Err(ParseError);
                        }
                        k += 1;
                    }
                    let ghost prev = fresh.deep_view();
                    let ghost xv = x.deep_view();
                    fresh.push(x);
                    proof {
                        assert(fresh.deep_view() =~= prev.push(xv));
                        assert(acc0 + prev.push(xv) =~= (acc0 + prev).push(xv));
                    }
                    i += 1;
                } else {
                    return Err(ParseError);
                }
            },
            _ => {
                return Err(ParseError);
            },
        }
    }
}

/// Reads the registry's sections until its `End` event: comment and groups
/// blocks are skipped whole, and each section extends its kind's sequence
/// in document order.
pub open spec fn registry_loop(evs: Seq<XmlEventV>, i: int, acc: GlRegistryV) -> Option<
    (GlRegistryV, int),
>
    decreases evs.len() - i,
{
    if i < 0 || i >= evs.len() {
        None
    } else {
        match evs[i] {
            XmlEventV::End { name } => if name == "registry"@ {
                Some((acc, i + 1))
            } else {
                None
            },
            XmlEventV::Start { name, attrs } => if name == "comment"@ && attrs.len() == 0 {
                match skip_section(evs, i + 1, "comment"@) {
                    Some(j) => if i < j && j <= evs.len() {
                        registry_loop(evs, j, acc)
                    } else {
                        None
                    },
                    None => None,
                }
            } else if name == "groups"@ && attrs.len() == 0 {
                match skip_section(evs, i + 1, "groups"@) {
                    Some(j) => if i < j && j <= evs.len() {
                        registry_loop(evs, j, acc)
                    } else {
                        None
                    },
                    None => None,
                }
            } else if name == "types"@ && attrs.len() == 0 {
                match types_section(evs, i + 1, acc.gl_types) {
                    Some((ts, j)) => if i < j && j <= evs.len() {
                        registry_loop(evs, j, GlRegistryV { gl_types: ts, ..acc })
                    } else {
                        None
                    },
                    None => None,
                }
            } else if name == "enums"@ {
                match enums_section(evs, i + 1, attrs, acc.gl_enums) {
                    Some((es, j)) => if i < j && j <= evs.len() {
                        registry_loop(evs, j, GlRegistryV { gl_enums: es, ..acc })
                    } else {
                        None
                    },
                    None => None,
                }
            } else if name == "commands"@ && attrs == "namespace=\"GL\""@ {
                match commands_section(evs, i + 1, acc.gl_commands) {
                    Some((cs, j)) => if i < j && j <= evs.len() {
                        registry_loop(evs, j, GlRegistryV { gl_commands: cs, ..acc })
                    } else {
                        None
                    },
                    None => None,
                }
            } else if name == "feature"@ {
                match feature_of(evs, i + 1, attrs) {
                    Some((f, j)) => if i < j && j <= evs.len() {
                        registry_loop(
                            evs,
                            j,
                            GlRegistryV { gl_features: acc.gl_features.push(f), ..acc },
                        )
                    } else {
                        None
                    },
                    None => None,
                }
            } else if name == "extensions"@ && attrs.len() == 0 {
                match extensions_section(evs, i + 1, acc.gl_extensions) {
                    Some((xs, j)) => if i < j && j <= evs.len() {
                        registry_loop(evs, j, GlRegistryV { gl_extensions: xs, ..acc })
                    } else {
                        None
                    },
                    None => None,
                }
            } else {
                None
            },
            XmlEventV::Empty { name, attrs } => if name == "enums"@ {
                registry_loop(evs, i + 1, acc)
            } else {
                None
            },
            _ => None,
        }
    }
}

/// The registry a whole event sequence describes: the root start tag, the
/// sections, and the root's end tag.
pub open spec fn document_registry(evs: Seq<XmlEventV>) -> Option<GlRegistryV> {
    if evs.len() > 0 {
        match evs[0] {
            XmlEventV::Start { name, attrs } => if name == "registry"@ && attrs.len() == 0 {
                match registry_loop(evs, 1, GlRegistryV::empty()) {
                    Some((reg, _j)) => Some(reg),
                    None => None,
                }
            } else {
                None
            },
            _ => None,
        }
    } else {
        None
    }
}

impl GlRegistry {
    /// Builds a registry from the event stream, with the cursor positioned
    /// just after the document root's start tag; consumes exactly through
    /// the root's end tag.
    #[verifier::loop_isolation(false)]
    pub fn from_iter(events: &Vec<XmlEvent>, pos: usize) -> (r: Result<
        (GlRegistry, usize),
        ParseError,
    >)
        ensures
            match r {
                Ok((reg, end)) => registry_loop(
                    events.deep_view(),
                    pos as int,
                    GlRegistryV::empty(),
                ) == Some((reg.deep_view(), end as int)) && pos < end <= events@.len(),
                Err(_) => registry_loop(events.deep_view(), pos as int, GlRegistryV::empty())
                    is None,
            },
    {
        let ghost evs = events.deep_view();
        let mut registry = GlRegistry::default();
        let n = events.len();
        let mut i: usize = pos;
        if i > n {
            return Err(ParseError);
        }
        loop
            invariant
                pos <= i <= n,
                registry_loop(evs, pos as int, GlRegistryV::empty()) == registry_loop(
                    evs,
                    i as int,
                    registry.deep_view(),
                ),
            decreases n - i,
        {
            if i == n {
                return Err(ParseError);
            }
            proof {
                assert(evs[i as int] == events@[i as int].deep_view());
            }
            match &events[i] {
                XmlEvent::End { name } => {
                    if str_eq(name.as_str(), "registry") {
                        return Ok((registry, i + 1));
                    } else {
                        return Err(ParseError);
                    }
                },
                XmlEvent::Start { name, attrs } => {
                    if str_eq(name.as_str(), "comment") && attrs.as_str().is_empty() {
                        match eat_to_comment_close(events, i + 1) {
                            Ok(j) => {
                                i = j;
                            },
                            Err(e) => {
                                return Err(e);
                            },
                        }
                    } else if str_eq(name.as_str(), "groups") && attrs.as_str().is_empty() {
                        match eat_to_groups_close(events, i + 1) {
                            Ok(j) => {
                                i = j;
                            },
                            Err(e) => {
                                return Err(e);
                            },
                        }
                    } else if str_eq(name.as_str(), "types") && attrs.as_str().is_empty() {
                        let ghost st0 = registry.deep_view();
                        match consume_types(&mut registry.gl_types, events, i + 1) {
                            Ok(j) => {
                                proof {
                                    assert(registry.deep_view() == (GlRegistryV {
                                        gl_types: registry.gl_types.deep_view(),
                                        ..st0
                                    }));
                                }
                                i = j;
                            },
                            Err(e) => {
                                return Err(e);
                            },
                        }
                    } else if str_eq(name.as_str(), "enums") {
                        let ghost st0 = registry.deep_view();
                        match gather_enum_entries_to(
                            &mut registry.gl_enums,
                            events,
                            i + 1,
                            attrs.as_str(),
                        ) {
                            Ok(j) => {
                                proof {
                                    assert(registry.deep_view() == (GlRegistryV {
                                        gl_enums: registry.gl_enums.deep_view(),
                                        ..st0
                                    }));
                                }
                                i = j;
                            },
                            Err(e) => {
                                return Err(e);
                            },
                        }
                    } else if str_eq(name.as_str(), "commands") && str_eq(
                        attrs.as_str(),
                        "namespace=\"GL\"",
                    ) {
                        let ghost st0 = registry.deep_view();
                        match consume_commands(&mut registry.gl_commands, events, i + 1) {
                            Ok(j) => {
                                proof {
                                    assert(registry.deep_view() == (GlRegistryV {
                                        gl_commands: registry.gl_commands.deep_view(),
                                        ..st0
                                    }));
                                }
                                i = j;
                            },
                            Err(e) => {
                                return Err(e);
                            },
                        }
                    } else if str_eq(name.as_str(), "feature") {
                        match GlFeature::from_iter_and_attrs(events, i + 1, attrs.as_str()) {
                            Ok((f, j)) => {
                                let ghost st0 = registry.deep_view();
                                let ghost prev = registry.gl_features.deep_view();
                                let ghost fv = f.deep_view();
                                registry.gl_features.push(f);
                                proof {
                                    assert(registry.gl_features.deep_view() =~= prev.push(fv));
                                    assert(registry.deep_view() == (GlRegistryV {
                                        gl_features: prev.push(fv),
                                        ..st0
                                    }));
                                }
                                i = j;
                            },
                            Err(e) => {
                                return Err(e);
                            },
                        }
                    } else if str_eq(name.as_str(), "extensions") && attrs.as_str().is_empty() {
                        let ghost st0 = registry.deep_view();
                        match consume_extensions(&mut registry.gl_extensions, events, i + 1) {
                            Ok(j) => {
                                proof {
                                    assert(registry.deep_view() == (GlRegistryV {
                                        gl_extensions: registry.gl_extensions.deep_view(),
                                        ..st0
                                    }));
                                }
                                i = j;
                            },
                            Err(e) => {
                                return Err(e);
                            },
                        }
                    } else {
                        return Err(ParseError);
                    }
                },
                XmlEvent::Empty { name, attrs: _eattrs } => {
                    if str_eq(name.as_str(), "enums") {
                        i += 1;
                    } else {
                        return Err(ParseError);
                    }
                },
                XmlEvent::Text { text: _t } => {
                    return Err(ParseError);
                },
            }
        }
    }
}

/// Parses a whole registry document: the text is tokenized, the root start
/// tag is checked, and the walker consumes through the root's end tag.
pub fn parse_registry(doc: &str) -> (r: Result<GlRegistry, ParseError>)
    ensures
        match r {
            Ok(reg) => document_registry(events_of(doc@)) == Some(reg.deep_view()),
            Err(_) => document_registry(events_of(doc@)) is None,
        },
{
    let events = tokenize(doc);
    let ghost evs = events.deep_view();
    if events.len() == 0 {
        return Err(ParseError);
    }
    proof {
        assert(evs[0] == events@[0].deep_view());
    }
    let ok = match &events[0] {
        XmlEvent::Start { name, attrs } => str_eq(name.as_str(), "registry") && attrs.as_str().is_empty(),
        _ => false,
    };
    if !ok {
        return Err(ParseError);
    }
    match GlRegistry::from_iter(&events, 1) {
        Ok((reg, _end)) => Ok(reg),
        Err(e) => Err(e),
    }
}

/// An event outside the set the registry grammar expects fails the whole
/// walk at once: no registry value is handed out, only the error.
pub proof fn lemma_unknown_registry_tag(
    evs: Seq<XmlEventV>,
    i: int,
    acc: GlRegistryV,
    name: Seq<char>,
    attrs: Seq<char>,
)
    requires
        0 <= i < evs.len(),
        evs[i] == (XmlEventV::Start { name, attrs }),
        name != "comment"@,
        name != "groups"@,
        name != "types"@,
        name != "enums"@,
        name != "commands"@,
        name != "feature"@,
        name != "extensions"@,
    ensures
        registry_loop(evs, i, acc) is None,
{
}

/// Whether an event is an `enum` child entry of an `enums` section.
pub open spec fn is_enum_child(e: XmlEventV) -> bool {
    e matches XmlEventV::Empty { name, attrs } && name == "enum"@
}

/// How many `enum` child entries stand in `[i, j)`.
pub open spec fn count_enum_children(evs: Seq<XmlEventV>, i: int, j: int) -> int
    decreases j - i,
{
    if i >= j {
        0
    } else {
        (if 0 <= i < evs.len() && is_enum_child(evs[i]) {
            1int
        } else {
            0int
        }) + count_enum_children(evs, i + 1, j)
    }
}

/// An `enums` section yields exactly one constant per `enum` child tag, in
/// document order: the output length grows by the number of those children.
pub proof fn lemma_enums_count(
    evs: Seq<XmlEventV>,
    i: int,
    bm: bool,
    acc: Seq<GlEnumV>,
    r: Seq<GlEnumV>,
    j: int,
)
    requires
        enums_entries(evs, i, bm, acc) == Some((r, j)),
    ensures
        i < j <= evs.len(),
        r.len() == acc.len() + count_enum_children(evs, i, j - 1),
    decreases evs.len() - i,
{
    reveal_strlit("enums");
    reveal_strlit("unused");
    reveal_strlit("enum");
    match evs[i] {
        XmlEventV::End { name } => {
        },
        XmlEventV::Empty { name, attrs } => {
            if name == "unused"@ {
                lemma_enums_count(evs, i + 1, bm, acc, r, j);
                assert("unused"@ != "enum"@) by {
                    assert("unused"@.len() == 6);
                };
            } else {
                let e = gl_enum_of(attrs, bm)->Some_0;
                lemma_enums_count(evs, i + 1, bm, acc.push(e), r, j);
            }
        },
        _ => {
        },
    }
}

/// An `extensions` section yields exactly one extension per `extension`
/// child, whether written as an element or as a self-closing tag.
pub proof fn lemma_extensions_count(
    evs: Seq<XmlEventV>,
    i: int,
    acc: Seq<GlExtensionV>,
    r: Seq<GlExtensionV>,
    j: int,
)
    requires
        extensions_section(evs, i, acc) == Some((r, j)),
    ensures
        i < j <= evs.len(),
        r.len() == acc.len() + count_tag_named(evs, i, j - 1, "extension"@),
        r.len() == acc.len() + count_tag_named(evs, i, j, "extension"@),
    decreases evs.len() - i,
{
    reveal_strlit("extensions");
    reveal_strlit("extension");
    reveal_strlit("require");
    reveal_strlit("type");
    reveal_strlit("enum");
    reveal_strlit("command");
    let x = "extension"@;
    assert(x.len() == 9);
    assert(x != "require"@) by {
        assert("require"@.len() == 7);
    };
    assert(x != "type"@) by {
        assert("type"@.len() == 4);
    };
    assert(x != "enum"@) by {
        assert("enum"@.len() == 4);
    };
    assert(x != "command"@) by {
        assert("command"@.len() == 7);
    };
    match evs[i] {
        XmlEventV::End { name } => {
            assert(count_tag_named(evs, i + 1, j, x) == 0);
        },
        XmlEventV::Start { name, attrs } => {
            let e = extension_of(evs, i + 1, attrs)->Some_0;
            let ps = attrs_of(attrs)->Some_0;
            let nmsup = ext_attrs_loop(ps, 0, Seq::empty(), Seq::empty())->Some_0;
            lemma_ext_no_tag(
                evs,
                i + 1,
                GlExtensionV { name: nmsup.0, supported: nmsup.1, required: Seq::empty() },
                e.0,
                e.1,
                x,
            );
            lemma_extensions_count(evs, e.1, acc.push(e.0), r, j);
            lemma_count_tag_split(evs, i + 1, e.1, j - 1, x);
            lemma_count_tag_split(evs, i + 1, e.1, j, x);
        },
        XmlEventV::Empty { name, attrs } => {
            let ps = attrs_of(attrs)->Some_0;
            let nmsup = ext_empty_attrs_loop(ps, 0, Seq::empty(), Seq::empty())->Some_0;
            lemma_extensions_count(
                evs,
                i + 1,
                acc.push(GlExtensionV { name: nmsup.0, supported: nmsup.1, required: Seq::empty() }),
                r,
                j,
            );
        },
        _ => {
        },
    }
}

/// A `commands` section yields exactly one command per `command` child
/// element, in document order.
pub proof fn lemma_commands_count(
    evs: Seq<XmlEventV>,
    i: int,
    acc: Seq<GlCommandV>,
    r: Seq<GlCommandV>,
    j: int,
)
    requires
        commands_section(evs, i, acc) == Some((r, j)),
    ensures
        i < j <= evs.len(),
        r.len() == acc.len() + count_start_named(evs, i, j - 1, "command"@),
        r.len() == acc.len() + count_start_named(evs, i, j, "command"@),
    decreases evs.len() - i,
{
    reveal_strlit("commands");
    reveal_strlit("command");
    reveal_strlit("proto");
    reveal_strlit("param");
    reveal_strlit("name");
    reveal_strlit("ptype");
    let c = "command"@;
    assert(c.len() == 7);
    assert(c != "proto"@) by {
        assert("proto"@.len() == 5);
    };
    assert(c != "param"@) by {
        assert("param"@.len() == 5);
    };
    assert(c != "name"@) by {
        assert("name"@.len() == 4);
    };
    assert(c != "ptype"@) by {
        assert("ptype"@.len() == 5);
    };
    match evs[i] {
        XmlEventV::End { name } => {
            assert(count_start_named(evs, i + 1, j, c) == 0);
        },
        XmlEventV::Start { name, attrs } => {
            let cm = command_of(evs, i + 1, attrs)->Some_0;
            lemma_command_no_named(evs, i + 1, command_init(), cm.0, cm.1, c);
            lemma_commands_count(evs, cm.1, acc.push(cm.0), r, j);
            lemma_count_named_split(evs, i + 1, cm.1, j - 1, c);
            lemma_count_named_split(evs, i + 1, cm.1, j, c);
        },
        _ => {
        },
    }
}

/// Whether an event opens a `type` child of a `types` section.
pub open spec fn is_type_child(e: XmlEventV) -> bool {
    e matches XmlEventV::Start { name, attrs } && name == "type"@
}

/// A `types` section yields exactly one declared type per `type` child
/// element, as long as none of the children is a dropped inclusion block.
#[verifier::rlimit(60)]
pub proof fn lemma_types_count(
    evs: Seq<XmlEventV>,
    i: int,
    acc: Seq<GlTypeV>,
    r: Seq<GlTypeV>,
    j: int,
)
    requires
        types_section(evs, i, acc) == Some((r, j)),
        forall|k: int|
            i <= k < j && is_type_child(#[trigger] evs[k]) ==> !(type_entry(evs, k + 1) matches Some(
                (None::<GlTypeV>, _),
            )),
    ensures
        i < j <= evs.len(),
        r.len() == acc.len() + count_start_named(evs, i, j - 1, "type"@),
        r.len() == acc.len() + count_start_named(evs, i, j, "type"@),
    decreases evs.len() - i,
{
    reveal_strlit("types");
    reveal_strlit("type");
    reveal_strlit("name");
    let t = "type"@;
    assert(t != "name"@) by {
        assert(t[0] != "name"@[0]);
    };
    match evs[i] {
        XmlEventV::End { name } => {
            assert(count_start_named(evs, i + 1, j, t) == 0);
        },
        XmlEventV::Start { name, attrs } => {
            let e = type_entry(evs, i + 1)->Some_0;
            let tl = type_text_loop(evs, i + 1, Seq::empty())->Some_0;
            lemma_type_text_no_named(evs, i + 1, Seq::empty(), tl.0, tl.1, t);
            if e.0 is Some {
                lemma_types_count(evs, e.1, acc.push(e.0->Some_0), r, j);
                lemma_count_named_split(evs, i + 1, e.1, j - 1, t);
                lemma_count_named_split(evs, i + 1, e.1, j, t);
            } else {
                lemma_types_count(evs, e.1, acc, r, j);
                assert(is_type_child(evs[i]));
                assert(false);
            }
        },
        _ => {
        },
    }
}

/// How many `Start` events named `nm` stand in `[i, j)`.
pub open spec fn count_start_named(evs: Seq<XmlEventV>, i: int, j: int, nm: Seq<char>) -> int
    decreases j - i,
{
    if i >= j {
        0
    } else {
        (if 0 <= i < evs.len() && (evs[i] matches XmlEventV::Start { name, attrs } && name == nm) {
            1int
        } else {
            0int
        }) + count_start_named(evs, i + 1, j, nm)
    }
}

/// Counting over `[a, c)` splits at any `b` between.
proof fn lemma_count_named_split(evs: Seq<XmlEventV>, a: int, b: int, c: int, nm: Seq<char>)
    requires
        a <= b <= c,
    ensures
        count_start_named(evs, a, c, nm) == count_start_named(evs, a, b, nm) + count_start_named(
            evs,
            b,
            c,
            nm,
        ),
    decreases b - a,
{
    if a < b {
        lemma_count_named_split(evs, a + 1, b, c, nm);
    }
}

/// A text-and-end pair opens no tag at all.
proof fn lemma_grab_no_named(
    evs: Seq<XmlEventV>,
    i: int,
    tag: Seq<char>,
    t: Seq<char>,
    j: int,
    nm: Seq<char>,
)
    requires
        grab_text(evs, i, tag) == Some((t, j)),
    ensures
        i < j <= evs.len(),
        count_start_named(evs, i, j, nm) == 0,
{
    assert(count_start_named(evs, i + 2, j, nm) == 0);
    assert(count_start_named(evs, i + 1, j, nm) == 0);
}

/// A `proto` element's body opens only `name` and `ptype` tags.
proof fn lemma_proto_no_named(
    evs: Seq<XmlEventV>,
    i: int,
    nm0: Seq<char>,
    pr: Seq<char>,
    rnm: Seq<char>,
    rpr: Seq<char>,
    j: int,
    nm: Seq<char>,
)
    requires
        proto_loop(evs, i, nm0, pr) == Some((rnm, rpr, j)),
        nm != "name"@,
        nm != "ptype"@,
    ensures
        i < j <= evs.len(),
        count_start_named(evs, i, j, nm) == 0,
    decreases evs.len() - i,
{
    match evs[i] {
        XmlEventV::End { name } => {
            assert(count_start_named(evs, i + 1, j, nm) == 0);
        },
        XmlEventV::Text { text } => {
            lemma_proto_no_named(evs, i + 1, nm0, pr + text, rnm, rpr, j, nm);
        },
        XmlEventV::Start { name, attrs } => {
            if name == "name"@ {
                let g = grab_text(evs, i + 1, "name"@)->Some_0;
                lemma_grab_no_named(evs, i + 1, "name"@, g.0, g.1, nm);
                lemma_proto_no_named(evs, g.1, nm0 + g.0, pr + g.0, rnm, rpr, j, nm);
                lemma_count_named_split(evs, i + 1, g.1, j, nm);
            } else {
                let g = grab_text(evs, i + 1, "ptype"@)->Some_0;
                lemma_grab_no_named(evs, i + 1, "ptype"@, g.0, g.1, nm);
                lemma_proto_no_named(evs, g.1, nm0, pr + g.0, rnm, rpr, j, nm);
                lemma_count_named_split(evs, i + 1, g.1, j, nm);
            }
        },
        _ => {
        },
    }
}

/// A `param` element's body opens only `name` and `ptype` tags.
proof fn lemma_param_no_named(
    evs: Seq<XmlEventV>,
    i: int,
    acc: Seq<char>,
    t: Seq<char>,
    j: int,
    nm: Seq<char>,
)
    requires
        param_text_loop(evs, i, acc) == Some((t, j)),
        nm != "name"@,
        nm != "ptype"@,
    ensures
        i < j <= evs.len(),
        count_start_named(evs, i, j, nm) == 0,
    decreases evs.len() - i,
{
    match evs[i] {
        XmlEventV::End { name } => {
            assert(count_start_named(evs, i + 1, j, nm) == 0);
        },
        XmlEventV::Text { text } => {
            lemma_param_no_named(evs, i + 1, acc + text, t, j, nm);
        },
        XmlEventV::Start { name, attrs } => {
            if name == "ptype"@ {
                let g = grab_text(evs, i + 1, "ptype"@)->Some_0;
                lemma_grab_no_named(evs, i + 1, "ptype"@, g.0, g.1, nm);
                lemma_param_no_named(evs, g.1, acc + g.0, t, j, nm);
                lemma_count_named_split(evs, i + 1, g.1, j, nm);
            } else {
                let g = grab_text(evs, i + 1, "name"@)->Some_0;
                lemma_grab_no_named(evs, i + 1, "name"@, g.0, g.1, nm);
                lemma_param_no_named(evs, g.1, acc + " "@ + g.0, t, j, nm);
                lemma_count_named_split(evs, i + 1, g.1, j, nm);
            }
        },
        _ => {
        },
    }
}

/// A `command` element's body opens only `proto`, `param`, `name` and
/// `ptype` tags.
proof fn lemma_command_no_named(
    evs: Seq<XmlEventV>,
    i: int,
    st: GlCommandV,
    rc: GlCommandV,
    j: int,
    nm: Seq<char>,
)
    requires
        command_loop(evs, i, st) == Some((rc, j)),
        nm != "proto"@,
        nm != "param"@,
        nm != "name"@,
        nm != "ptype"@,
    ensures
        i < j <= evs.len(),
        count_start_named(evs, i, j, nm) == 0,
    decreases evs.len() - i,
{
    match evs[i] {
        XmlEventV::End { name } => {
            assert(count_start_named(evs, i + 1, j, nm) == 0);
        },
        XmlEventV::Start { name, attrs } => {
            if name == "proto"@ {
                let ps = attrs_of(attrs)->Some_0;
                let g = proto_attrs_loop(ps, 0, st.proto_group)->Some_0;
                let pl = proto_loop(evs, i + 1, st.name, st.proto)->Some_0;
                lemma_proto_no_named(evs, i + 1, st.name, st.proto, pl.0, pl.1, pl.2, nm);
                lemma_command_no_named(
                    evs,
                    pl.2,
                    GlCommandV { name: pl.0, proto: pl.1, proto_group: g, ..st },
                    rc,
                    j,
                    nm,
                );
                lemma_count_named_split(evs, i + 1, pl.2, j, nm);
            } else {
                let pf = param_of(evs, i + 1, attrs)->Some_0;
                let tl = param_text_loop(evs, i + 1, Seq::empty())->Some_0;
                lemma_param_no_named(evs, i + 1, Seq::empty(), tl.0, tl.1, nm);
                lemma_command_no_named(
                    evs,
                    pf.1,
                    GlCommandV { params: st.params.push(pf.0), ..st },
                    rc,
                    j,
                    nm,
                );
                lemma_count_named_split(evs, i + 1, pf.1, j, nm);
            }
        },
        XmlEventV::Empty { name, attrs } => {
            if name == "glx"@ {
                lemma_command_no_named(
                    evs,
                    i + 1,
                    GlCommandV { glx_attrs: Some(attrs), ..st },
                    rc,
                    j,
                    nm,
                );
            } else if name == "alias"@ {
                let ps = attrs_of(attrs)->Some_0;
                let a = single_name_loop(ps, 0, st.alias_of)->Some_0;
                lemma_command_no_named(evs, i + 1, GlCommandV { alias_of: a, ..st }, rc, j, nm);
            } else {
                let ps = attrs_of(attrs)->Some_0;
                let a = single_name_loop(ps, 0, st.vec_equivalent)->Some_0;
                lemma_command_no_named(
                    evs,
                    i + 1,
                    GlCommandV { vec_equivalent: a, ..st },
                    rc,
                    j,
                    nm,
                );
            }
        },
        _ => {
        },
    }
}

/// A `commands` section opens only `command` tags and what stands inside
/// them.
proof fn lemma_commands_no_named(
    evs: Seq<XmlEventV>,
    i: int,
    acc: Seq<GlCommandV>,
    r: Seq<GlCommandV>,
    j: int,
    nm: Seq<char>,
)
    requires
        commands_section(evs, i, acc) == Some((r, j)),
        nm != "command"@,
        nm != "proto"@,
        nm != "param"@,
        nm != "name"@,
        nm != "ptype"@,
    ensures
        i < j <= evs.len(),
        count_start_named(evs, i, j, nm) == 0,
    decreases evs.len() - i,
{
    match evs[i] {
        XmlEventV::End { name } => {
            assert(count_start_named(evs, i + 1, j, nm) == 0);
        },
        XmlEventV::Start { name, attrs } => {
            let c = command_of(evs, i + 1, attrs)->Some_0;
            lemma_command_no_named(evs, i + 1, command_init(), c.0, c.1, nm);
            lemma_commands_no_named(evs, c.1, acc.push(c.0), r, j, nm);
            lemma_count_named_split(evs, i + 1, c.1, j, nm);
        },
        _ => {
        },
    }
}

/// A `type` element's body opens only `name` tags.
proof fn lemma_type_text_no_named(
    evs: Seq<XmlEventV>,
    i: int,
    acc: Seq<char>,
    t: Seq<char>,
    j: int,
    nm: Seq<char>,
)
    requires
        type_text_loop(evs, i, acc) == Some((t, j)),
        nm != "name"@,
    ensures
        i < j <= evs.len(),
        count_start_named(evs, i, j, nm) == 0,
    decreases evs.len() - i,
{
    match evs[i] {
        XmlEventV::End { name } => {
            assert(count_start_named(evs, i + 1, j, nm) == 0);
        },
        XmlEventV::Text { text } => {
            lemma_type_text_no_named(evs, i + 1, acc + trimmed(text), t, j, nm);
        },
        XmlEventV::Start { name, attrs } => {
            let g = grab_text(evs, i + 1, "name"@)->Some_0;
            lemma_grab_no_named(evs, i + 1, "name"@, g.0, g.1, nm);
            lemma_type_text_no_named(
                evs,
                g.1,
                if acc.len() == 0 {
                    g.0
                } else {
                    acc + " "@ + g.0
                },
                t,
                j,
                nm,
            );
            lemma_count_named_split(evs, i + 1, g.1, j, nm);
        },
        XmlEventV::Empty { name, attrs } => {
            lemma_type_text_no_named(evs, i + 1, acc, t, j, nm);
        },
    }
}

/// A `types` section opens only `type` tags and what stands inside them.
proof fn lemma_types_no_named(
    evs: Seq<XmlEventV>,
    i: int,
    acc: Seq<GlTypeV>,
    r: Seq<GlTypeV>,
    j: int,
    nm: Seq<char>,
)
    requires
        types_section(evs, i, acc) == Some((r, j)),
        nm != "type"@,
        nm != "name"@,
    ensures
        i < j <= evs.len(),
        count_start_named(evs, i, j, nm) == 0,
    decreases evs.len() - i,
{
    match evs[i] {
        XmlEventV::End { name } => {
            assert(count_start_named(evs, i + 1, j, nm) == 0);
        },
        XmlEventV::Start { name, attrs } => {
            let e = type_entry(evs, i + 1)->Some_0;
            let tl = type_text_loop(evs, i + 1, Seq::empty())->Some_0;
            lemma_type_text_no_named(evs, i + 1, Seq::empty(), tl.0, tl.1, nm);
            lemma_types_no_named(
                evs,
                e.1,
                match e.0 {
                    Some(t) => acc.push(t),
                    None => acc,
                },
                r,
                j,
                nm,
            );
            lemma_count_named_split(evs, i + 1, e.1, j, nm);
        },
        _ => {
        },
    }
}

/// An `enums` section's entries open no tags at all.
proof fn lemma_enums_no_named(
    evs: Seq<XmlEventV>,
    i: int,
    bm: bool,
    acc: Seq<GlEnumV>,
    r: Seq<GlEnumV>,
    j: int,
    nm: Seq<char>,
)
    requires
        enums_entries(evs, i, bm, acc) == Some((r, j)),
    ensures
        i < j <= evs.len(),
        count_start_named(evs, i, j, nm) == 0,
    decreases evs.len() - i,
{
    match evs[i] {
        XmlEventV::End { name } => {
            assert(count_start_named(evs, i + 1, j, nm) == 0);
        },
        XmlEventV::Empty { name, attrs } => {
            if name == "unused"@ {
                lemma_enums_no_named(evs, i + 1, bm, acc, r, j, nm);
            } else {
                let e = gl_enum_of(attrs, bm)->Some_0;
                lemma_enums_no_named(evs, i + 1, bm, acc.push(e), r, j, nm);
            }
        },
        _ => {
        },
    }
}

/// A `require` block's entries open no tags at all.
proof fn lemma_require_no_named(
    evs: Seq<XmlEventV>,
    i: int,
    p: Option<Seq<char>>,
    a: Option<ApiGroup>,
    acc: Seq<GlRequirementV>,
    r: Seq<GlRequirementV>,
    j: int,
    nm: Seq<char>,
)
    requires
        require_items(evs, i, p, a, acc) == Some((r, j)),
    ensures
        i < j <= evs.len(),
        count_start_named(evs, i, j, nm) == 0,
    decreases evs.len() - i,
{
    match evs[i] {
        XmlEventV::End { name } => {
            assert(count_start_named(evs, i + 1, j, nm) == 0);
        },
        XmlEventV::Empty { name, attrs } => {
            let ps = attrs_of(attrs)->Some_0;
            let ns = entry_names_loop(ps, 0, Seq::empty())->Some_0;
            lemma_require_no_named(
                evs,
                i + 1,
                p,
                a,
                acc + reqs_of_names(ns, p, a, name),
                r,
                j,
                nm,
            );
        },
        _ => {
        },
    }
}

/// A `remove` block's entries open no tags at all.
proof fn lemma_remove_no_named(
    evs: Seq<XmlEventV>,
    i: int,
    p: Option<Seq<char>>,
    acc: Seq<GlRemovalV>,
    r: Seq<GlRemovalV>,
    j: int,
    nm: Seq<char>,
)
    requires
        remove_items(evs, i, p, acc) == Some((r, j)),
    ensures
        i < j <= evs.len(),
        count_start_named(evs, i, j, nm) == 0,
    decreases evs.len() - i,
{
    match evs[i] {
        XmlEventV::End { name } => {
            assert(count_start_named(evs, i + 1, j, nm) == 0);
        },
        XmlEventV::Empty { name, attrs } => {
            let ps = attrs_of(attrs)->Some_0;
            let ns = entry_names_loop(ps, 0, Seq::empty())->Some_0;
            lemma_remove_no_named(evs, i + 1, p, acc + rems_of_names(ns, p, name), r, j, nm);
        },
        _ => {
        },
    }
}

/// A `feature` element's body opens only `require` and `remove` blocks.
proof fn lemma_feature_no_named(
    evs: Seq<XmlEventV>,
    i: int,
    st: GlFeatureV,
    rf: GlFeatureV,
    j: int,
    nm: Seq<char>,
)
    requires
        feature_loop(evs, i, st) == Some((rf, j)),
        nm != "require"@,
        nm != "remove"@,
    ensures
        i < j <= evs.len(),
        count_start_named(evs, i, j, nm) == 0,
    decreases evs.len() - i,
{
    match evs[i] {
        XmlEventV::End { name } => {
            assert(count_start_named(evs, i + 1, j, nm) == 0);
        },
        XmlEventV::Start { name, attrs } => {
            let ps = attrs_of(attrs)->Some_0;
            if name == "require"@ {
                let pa = require_attrs_loop(ps, 0, None, None)->Some_0;
                let rs = require_items(evs, i + 1, pa.0, pa.1, st.required)->Some_0;
                lemma_require_no_named(evs, i + 1, pa.0, pa.1, st.required, rs.0, rs.1, nm);
                lemma_feature_no_named(
                    evs,
                    rs.1,
                    GlFeatureV { required: rs.0, ..st },
                    rf,
                    j,
                    nm,
                );
                lemma_count_named_split(evs, i + 1, rs.1, j, nm);
            } else {
                let p = profile_attrs_loop(ps, 0, None)->Some_0;
                let rs = remove_items(evs, i + 1, p, st.remove)->Some_0;
                lemma_remove_no_named(evs, i + 1, p, st.remove, rs.0, rs.1, nm);
                lemma_feature_no_named(evs, rs.1, GlFeatureV { remove: rs.0, ..st }, rf, j, nm);
                lemma_count_named_split(evs, i + 1, rs.1, j, nm);
            }
        },
        XmlEventV::Empty { name, attrs } => {
            lemma_feature_no_named(evs, i + 1, st, rf, j, nm);
        },
        _ => {
        },
    }
}

/// An `extension` element's body opens only `require` blocks.
proof fn lemma_ext_no_named(
    evs: Seq<XmlEventV>,
    i: int,
    st: GlExtensionV,
    rx: GlExtensionV,
    j: int,
    nm: Seq<char>,
)
    requires
        ext_loop(evs, i, st) == Some((rx, j)),
        nm != "require"@,
    ensures
        i < j <= evs.len(),
        count_start_named(evs, i, j, nm) == 0,
    decreases evs.len() - i,
{
    match evs[i] {
        XmlEventV::End { name } => {
            assert(count_start_named(evs, i + 1, j, nm) == 0);
        },
        XmlEventV::Start { name, attrs } => {
            let ps = attrs_of(attrs)->Some_0;
            let pa = require_attrs_loop(ps, 0, None, None)->Some_0;
            let rs = require_items(evs, i + 1, pa.0, pa.1, st.required)->Some_0;
            lemma_require_no_named(evs, i + 1, pa.0, pa.1, st.required, rs.0, rs.1, nm);
            lemma_ext_no_named(evs, rs.1, GlExtensionV { required: rs.0, ..st }, rx, j, nm);
            lemma_count_named_split(evs, i + 1, rs.1, j, nm);
        },
        _ => {
        },
    }
}

/// An `extensions` section opens only `extension` elements and their
/// `require` blocks.
proof fn lemma_extensions_no_named(
    evs: Seq<XmlEventV>,
    i: int,
    acc: Seq<GlExtensionV>,
    r: Seq<GlExtensionV>,
    j: int,
    nm: Seq<char>,
)
    requires
        extensions_section(evs, i, acc) == Some((r, j)),
        nm != "extension"@,
        nm != "require"@,
    ensures
        i < j <= evs.len(),
        count_start_named(evs, i, j, nm) == 0,
    decreases evs.len() - i,
{
    match evs[i] {
        XmlEventV::End { name } => {
            assert(count_start_named(evs, i + 1, j, nm) == 0);
        },
        XmlEventV::Start { name, attrs } => {
            let x = extension_of(evs, i + 1, attrs)->Some_0;
            let ps = attrs_of(attrs)->Some_0;
            let nmsup = ext_attrs_loop(ps, 0, Seq::empty(), Seq::empty())->Some_0;
            lemma_ext_no_named(
                evs,
                i + 1,
                GlExtensionV { name: nmsup.0, supported: nmsup.1, required: Seq::empty() },
                x.0,
                x.1,
                nm,
            );
            lemma_extensions_no_named(evs, x.1, acc.push(x.0), r, j, nm);
            lemma_count_named_split(evs, i + 1, x.1, j, nm);
        },
        XmlEventV::Empty { name, attrs } => {
            let ps = attrs_of(attrs)->Some_0;
            let nmsup = ext_empty_attrs_loop(ps, 0, Seq::empty(), Seq::empty())->Some_0;
            lemma_extensions_no_named(
                evs,
                i + 1,
                acc.push(GlExtensionV { name: nmsup.0, supported: nmsup.1, required: Seq::empty() }),
                r,
                j,
                nm,
            );
        },
        _ => {
        },
    }
}

/// The walk yields exactly one feature per `feature` element, in document
/// order, on documents whose skipped comment and groups blocks are absent:
/// inside such a block any tag is skipped unread, so only a document
/// without them pins the count to the tags seen.
#[verifier::rlimit(100)]
pub proof fn lemma_features_count(
    evs: Seq<XmlEventV>,
    i: int,
    acc: GlRegistryV,
    r: GlRegistryV,
    j: int,
)
    requires
        registry_loop(evs, i, acc) == Some((r, j)),
        forall|k: int|
            i <= k < j ==> !(#[trigger] evs[k] matches XmlEventV::Start { name, attrs }
                && (name == "comment"@ || name == "groups"@)),
    ensures
        i < j <= evs.len(),
        r.gl_features.len() == acc.gl_features.len() + count_start_named(evs, i, j - 1, "feature"@),
    decreases evs.len() - i,
{
    reveal_strlit("registry");
    reveal_strlit("comment");
    reveal_strlit("groups");
    reveal_strlit("types");
    reveal_strlit("type");
    reveal_strlit("name");
    reveal_strlit("ptype");
    reveal_strlit("enums");
    reveal_strlit("commands");
    reveal_strlit("command");
    reveal_strlit("proto");
    reveal_strlit("param");
    reveal_strlit("feature");
    reveal_strlit("require");
    reveal_strlit("remove");
    reveal_strlit("extensions");
    reveal_strlit("extension");
    let f = "feature"@;
    assert(f.len() == 7);
    assert(f != "command"@) by {
        assert(f[0] != "command"@[0]);
    };
    assert(f != "require"@) by {
        assert(f[0] != "require"@[0]);
    };
    assert(f != "proto"@) by {
        assert("proto"@.len() == 5);
    };
    assert(f != "param"@) by {
        assert("param"@.len() == 5);
    };
    assert(f != "name"@) by {
        assert("name"@.len() == 4);
    };
    assert(f != "ptype"@) by {
        assert("ptype"@.len() == 5);
    };
    assert(f != "type"@) by {
        assert("type"@.len() == 4);
    };
    assert(f != "remove"@) by {
        assert("remove"@.len() == 6);
    };
    assert(f != "extension"@) by {
        assert("extension"@.len() == 9);
    };
    match evs[i] {
        XmlEventV::End { name } => {
        },
        XmlEventV::Start { name, attrs } => {
            if name == "comment"@ && attrs.len() == 0 {
                let j2 = skip_section(evs, i + 1, "comment"@)->Some_0;
                lemma_features_count(evs, j2, acc, r, j);
                assert(i <= i < j);
                assert(false);
            } else if name == "groups"@ && attrs.len() == 0 {
                let j2 = skip_section(evs, i + 1, "groups"@)->Some_0;
                lemma_features_count(evs, j2, acc, r, j);
                assert(i <= i < j);
                assert(false);
            } else if name == "types"@ && attrs.len() == 0 {
                let ts = types_section(evs, i + 1, acc.gl_types)->Some_0;
                lemma_types_no_named(evs, i + 1, acc.gl_types, ts.0, ts.1, f);
                lemma_features_count(evs, ts.1, GlRegistryV { gl_types: ts.0, ..acc }, r, j);
                lemma_count_named_split(evs, i + 1, ts.1, j - 1, f);
            } else if name == "enums"@ {
                let es = enums_section(evs, i + 1, attrs, acc.gl_enums)->Some_0;
                let ps = attrs_of(attrs)->Some_0;
                let bm = enums_attrs_loop(ps, 0, false)->Some_0;
                lemma_enums_no_named(evs, i + 1, bm, acc.gl_enums, es.0, es.1, f);
                lemma_features_count(evs, es.1, GlRegistryV { gl_enums: es.0, ..acc }, r, j);
                lemma_count_named_split(evs, i + 1, es.1, j - 1, f);
            } else if name == "commands"@ && attrs == "namespace=\"GL\""@ {
                let cs = commands_section(evs, i + 1, acc.gl_commands)->Some_0;
                lemma_commands_no_named(evs, i + 1, acc.gl_commands, cs.0, cs.1, f);
                lemma_features_count(evs, cs.1, GlRegistryV { gl_commands: cs.0, ..acc }, r, j);
                lemma_count_named_split(evs, i + 1, cs.1, j - 1, f);
            } else if name == "feature"@ {
                let fe = feature_of(evs, i + 1, attrs)->Some_0;
                let ps = attrs_of(attrs)->Some_0;
                let hd = feature_attrs_loop(ps, 0, ApiGroup::Gl, Seq::empty(), Seq::empty())->Some_0;
                lemma_feature_no_named(
                    evs,
                    i + 1,
                    GlFeatureV {
                        api: hd.0,
                        name: hd.1,
                        number: hd.2,
                        required: Seq::empty(),
                        remove: Seq::empty(),
                    },
                    fe.0,
                    fe.1,
                    f,
                );
                lemma_features_count(
                    evs,
                    fe.1,
                    GlRegistryV { gl_features: acc.gl_features.push(fe.0), ..acc },
                    r,
                    j,
                );
                lemma_count_named_split(evs, i + 1, fe.1, j - 1, f);
            } else if name == "extensions"@ && attrs.len() == 0 {
                let xs = extensions_section(evs, i + 1, acc.gl_extensions)->Some_0;
                lemma_extensions_no_named(evs, i + 1, acc.gl_extensions, xs.0, xs.1, f);
                lemma_features_count(evs, xs.1, GlRegistryV { gl_extensions: xs.0, ..acc }, r, j);
                lemma_count_named_split(evs, i + 1, xs.1, j - 1, f);
            } else {
                assert(false);
            }
        },
        XmlEventV::Empty { name, attrs } => {
            lemma_features_count(evs, i + 1, acc, r, j);
        },
        _ => {
        },
    }
}

/// The walk yields exactly one command per `command` element anywhere in
/// the document, on documents whose skipped comment and groups blocks are
/// absent: inside such a block any tag is skipped unread, so only a
/// document without them pins the count to the tags seen.
#[verifier::rlimit(100)]
pub proof fn lemma_registry_commands_count(
    evs: Seq<XmlEventV>,
    i: int,
    acc: GlRegistryV,
    r: GlRegistryV,
    j: int,
)
    requires
        registry_loop(evs, i, acc) == Some((r, j)),
        forall|k: int|
            i <= k < j ==> !(#[trigger] evs[k] matches XmlEventV::Start { name, attrs }
                && (name == "comment"@ || name == "groups"@)),
    ensures
        i < j <= evs.len(),
        r.gl_commands.len() == acc.gl_commands.len() + count_start_named(
            evs,
            i,
            j - 1,
            "command"@,
        ),
    decreases evs.len() - i,
{
    reveal_strlit("registry");
    reveal_strlit("comment");
    reveal_strlit("groups");
    reveal_strlit("types");
    reveal_strlit("type");
    reveal_strlit("name");
    reveal_strlit("ptype");
    reveal_strlit("enums");
    reveal_strlit("commands");
    reveal_strlit("command");
    reveal_strlit("proto");
    reveal_strlit("param");
    reveal_strlit("feature");
    reveal_strlit("require");
    reveal_strlit("remove");
    reveal_strlit("extensions");
    reveal_strlit("extension");
    let c = "command"@;
    assert(c.len() == 7);
    assert(c != "commands"@) by {
        assert("commands"@.len() == 8);
    };
    assert(c != "feature"@) by {
        assert(c[0] != "feature"@[0]);
    };
    assert(c != "require"@) by {
        assert(c[0] != "require"@[0]);
    };
    assert(c != "proto"@) by {
        assert("proto"@.len() == 5);
    };
    assert(c != "param"@) by {
        assert("param"@.len() == 5);
    };
    assert(c != "name"@) by {
        assert("name"@.len() == 4);
    };
    assert(c != "ptype"@) by {
        assert("ptype"@.len() == 5);
    };
    assert(c != "type"@) by {
        assert("type"@.len() == 4);
    };
    assert(c != "remove"@) by {
        assert("remove"@.len() == 6);
    };
    assert(c != "extension"@) by {
        assert("extension"@.len() == 9);
    };
    match evs[i] {
        XmlEventV::End { name } => {
        },
        XmlEventV::Start { name, attrs } => {
            if name == "comment"@ && attrs.len() == 0 {
                let j2 = skip_section(evs, i + 1, "comment"@)->Some_0;
                lemma_registry_commands_count(evs, j2, acc, r, j);
                assert(i <= i < j);
                assert(false);
            } else if name == "groups"@ && attrs.len() == 0 {
                let j2 = skip_section(evs, i + 1, "groups"@)->Some_0;
                lemma_registry_commands_count(evs, j2, acc, r, j);
                assert(i <= i < j);
                assert(false);
            } else if name == "types"@ && attrs.len() == 0 {
                let ts = types_section(evs, i + 1, acc.gl_types)->Some_0;
                lemma_types_no_named(evs, i + 1, acc.gl_types, ts.0, ts.1, c);
                lemma_registry_commands_count(
                    evs,
                    ts.1,
                    GlRegistryV { gl_types: ts.0, ..acc },
                    r,
                    j,
                );
                lemma_count_named_split(evs, i + 1, ts.1, j - 1, c);
            } else if name == "enums"@ {
                let es = enums_section(evs, i + 1, attrs, acc.gl_enums)->Some_0;
                let ps = attrs_of(attrs)->Some_0;
                let bm = enums_attrs_loop(ps, 0, false)->Some_0;
                lemma_enums_no_named(evs, i + 1, bm, acc.gl_enums, es.0, es.1, c);
                lemma_registry_commands_count(
                    evs,
                    es.1,
                    GlRegistryV { gl_enums: es.0, ..acc },
                    r,
                    j,
                );
                lemma_count_named_split(evs, i + 1, es.1, j - 1, c);
            } else if name == "commands"@ && attrs == "namespace=\"GL\""@ {
                let cs = commands_section(evs, i + 1, acc.gl_commands)->Some_0;
                lemma_commands_count(evs, i + 1, acc.gl_commands, cs.0, cs.1);
                lemma_registry_commands_count(
                    evs,
                    cs.1,
                    GlRegistryV { gl_commands: cs.0, ..acc },
                    r,
                    j,
                );
                lemma_count_named_split(evs, i + 1, cs.1, j - 1, c);
            } else if name == "feature"@ {
                let fe = feature_of(evs, i + 1, attrs)->Some_0;
                let ps = attrs_of(attrs)->Some_0;
                let hd = feature_attrs_loop(ps, 0, ApiGroup::Gl, Seq::empty(), Seq::empty())->Some_0;
                lemma_feature_no_named(
                    evs,
                    i + 1,
                    GlFeatureV {
                        api: hd.0,
                        name: hd.1,
                        number: hd.2,
                        required: Seq::empty(),
                        remove: Seq::empty(),
                    },
                    fe.0,
                    fe.1,
                    c,
                );
                lemma_registry_commands_count(
                    evs,
                    fe.1,
                    GlRegistryV { gl_features: acc.gl_features.push(fe.0), ..acc },
                    r,
                    j,
                );
                lemma_count_named_split(evs, i + 1, fe.1, j - 1, c);
            } else if name == "extensions"@ && attrs.len() == 0 {
                let xs = extensions_section(evs, i + 1, acc.gl_extensions)->Some_0;
                lemma_extensions_no_named(evs, i + 1, acc.gl_extensions, xs.0, xs.1, c);
                lemma_registry_commands_count(
                    evs,
                    xs.1,
                    GlRegistryV { gl_extensions: xs.0, ..acc },
                    r,
                    j,
                );
                lemma_count_named_split(evs, i + 1, xs.1, j - 1, c);
            } else {
                assert(false);
            }
        },
        XmlEventV::Empty { name, attrs } => {
            lemma_registry_commands_count(evs, i + 1, acc, r, j);
        },
        _ => {
        },
    }
}

/// The walk yields exactly one declared type per `type` element anywhere
/// in the document, on documents whose skipped comment and groups blocks
/// are absent and none of whose `type` children is a dropped inclusion
/// block.
#[verifier::rlimit(100)]
pub proof fn lemma_registry_types_count(
    evs: Seq<XmlEventV>,
    i: int,
    acc: GlRegistryV,
    r: GlRegistryV,
    j: int,
)
    requires
        registry_loop(evs, i, acc) == Some((r, j)),
        forall|k: int|
            i <= k < j ==> !(#[trigger] evs[k] matches XmlEventV::Start { name, attrs }
                && (name == "comment"@ || name == "groups"@)),
        forall|k: int|
            i <= k < j && is_type_child(#[trigger] evs[k]) ==> !(type_entry(evs, k + 1) matches Some(
                (None::<GlTypeV>, _),
            )),
    ensures
        i < j <= evs.len(),
        r.gl_types.len() == acc.gl_types.len() + count_start_named(evs, i, j - 1, "type"@),
    decreases evs.len() - i,
{
    reveal_strlit("registry");
    reveal_strlit("comment");
    reveal_strlit("groups");
    reveal_strlit("types");
    reveal_strlit("type");
    reveal_strlit("name");
    reveal_strlit("ptype");
    reveal_strlit("enums");
    reveal_strlit("commands");
    reveal_strlit("command");
    reveal_strlit("proto");
    reveal_strlit("param");
    reveal_strlit("feature");
    reveal_strlit("require");
    reveal_strlit("remove");
    reveal_strlit("extensions");
    reveal_strlit("extension");
    let t = "type"@;
    assert(t.len() == 4);
    assert(t != "types"@) by {
        assert("types"@.len() == 5);
    };
    assert(t != "name"@) by {
        assert(t[0] != "name"@[0]);
    };
    assert(t != "command"@) by {
        assert("command"@.len() == 7);
    };
    assert(t != "proto"@) by {
        assert("proto"@.len() == 5);
    };
    assert(t != "param"@) by {
        assert("param"@.len() == 5);
    };
    assert(t != "ptype"@) by {
        assert("ptype"@.len() == 5);
    };
    assert(t != "feature"@) by {
        assert("feature"@.len() == 7);
    };
    assert(t != "require"@) by {
        assert("require"@.len() == 7);
    };
    assert(t != "remove"@) by {
        assert("remove"@.len() == 6);
    };
    assert(t != "extension"@) by {
        assert("extension"@.len() == 9);
    };
    match evs[i] {
        XmlEventV::End { name } => {
        },
        XmlEventV::Start { name, attrs } => {
            if name == "comment"@ && attrs.len() == 0 {
                let j2 = skip_section(evs, i + 1, "comment"@)->Some_0;
                lemma_registry_types_count(evs, j2, acc, r, j);
                assert(i <= i < j);
                assert(false);
            } else if name == "groups"@ && attrs.len() == 0 {
                let j2 = skip_section(evs, i + 1, "groups"@)->Some_0;
                lemma_registry_types_count(evs, j2, acc, r, j);
                assert(i <= i < j);
                assert(false);
            } else if name == "types"@ && attrs.len() == 0 {
                let ts = types_section(evs, i + 1, acc.gl_types)->Some_0;
                lemma_registry_types_count(
                    evs,
                    ts.1,
                    GlRegistryV { gl_types: ts.0, ..acc },
                    r,
                    j,
                );
                lemma_types_count(evs, i + 1, acc.gl_types, ts.0, ts.1);
                lemma_count_named_split(evs, i + 1, ts.1, j - 1, t);
            } else if name == "enums"@ {
                let es = enums_section(evs, i + 1, attrs, acc.gl_enums)->Some_0;
                let ps = attrs_of(attrs)->Some_0;
                let bm = enums_attrs_loop(ps, 0, false)->Some_0;
                lemma_enums_no_named(evs, i + 1, bm, acc.gl_enums, es.0, es.1, t);
                lemma_registry_types_count(
                    evs,
                    es.1,
                    GlRegistryV { gl_enums: es.0, ..acc },
                    r,
                    j,
                );
                lemma_count_named_split(evs, i + 1, es.1, j - 1, t);
            } else if name == "commands"@ && attrs == "namespace=\"GL\""@ {
                let cs = commands_section(evs, i + 1, acc.gl_commands)->Some_0;
                lemma_commands_no_named(evs, i + 1, acc.gl_commands, cs.0, cs.1, t);
                lemma_registry_types_count(
                    evs,
                    cs.1,
                    GlRegistryV { gl_commands: cs.0, ..acc },
                    r,
                    j,
                );
                lemma_count_named_split(evs, i + 1, cs.1, j - 1, t);
            } else if name == "feature"@ {
                let fe = feature_of(evs, i + 1, attrs)->Some_0;
                let ps = attrs_of(attrs)->Some_0;
                let hd = feature_attrs_loop(ps, 0, ApiGroup::Gl, Seq::empty(), Seq::empty())->Some_0;
                lemma_feature_no_named(
                    evs,
                    i + 1,
                    GlFeatureV {
                        api: hd.0,
                        name: hd.1,
                        number: hd.2,
                        required: Seq::empty(),
                        remove: Seq::empty(),
                    },
                    fe.0,
                    fe.1,
                    t,
                );
                lemma_registry_types_count(
                    evs,
                    fe.1,
                    GlRegistryV { gl_features: acc.gl_features.push(fe.0), ..acc },
                    r,
                    j,
                );
                lemma_count_named_split(evs, i + 1, fe.1, j - 1, t);
            } else if name == "extensions"@ && attrs.len() == 0 {
                let xs = extensions_section(evs, i + 1, acc.gl_extensions)->Some_0;
                lemma_extensions_no_named(evs, i + 1, acc.gl_extensions, xs.0, xs.1, t);
                lemma_registry_types_count(
                    evs,
                    xs.1,
                    GlRegistryV { gl_extensions: xs.0, ..acc },
                    r,
                    j,
                );
                lemma_count_named_split(evs, i + 1, xs.1, j - 1, t);
            } else {
                assert(false);
            }
        },
        XmlEventV::Empty { name, attrs } => {
            lemma_registry_types_count(evs, i + 1, acc, r, j);
        },
        _ => {
        },
    }
}

/// How many `Start` or `Empty` events named `nm` stand in `[i, j)`.
pub open spec fn count_tag_named(evs: Seq<XmlEventV>, i: int, j: int, nm: Seq<char>) -> int
    decreases j - i,
{
    if i >= j {
        0
    } else {
        (if 0 <= i < evs.len() && ((evs[i] matches XmlEventV::Start { name, attrs } && name == nm)
            || (evs[i] matches XmlEventV::Empty { name, attrs } && name == nm)) {
            1int
        } else {
            0int
        }) + count_tag_named(evs, i + 1, j, nm)
    }
}

/// Counting over `[a, c)` splits at any `b` between.
proof fn lemma_count_tag_split(evs: Seq<XmlEventV>, a: int, b: int, c: int, nm: Seq<char>)
    requires
        a <= b <= c,
    ensures
        count_tag_named(evs, a, c, nm) == count_tag_named(evs, a, b, nm) + count_tag_named(
            evs,
            b,
            c,
            nm,
        ),
    decreases b - a,
{
    if a < b {
        lemma_count_tag_split(evs, a + 1, b, c, nm);
    }
}

/// A text-and-end pair holds no tag at all.
proof fn lemma_grab_no_tag(
    evs: Seq<XmlEventV>,
    i: int,
    tag: Seq<char>,
    t: Seq<char>,
    j: int,
    nm: Seq<char>,
)
    requires
        grab_text(evs, i, tag) == Some((t, j)),
    ensures
        i < j <= evs.len(),
        count_tag_named(evs, i, j, nm) == 0,
{
    assert(count_tag_named(evs, i + 2, j, nm) == 0);
    assert(count_tag_named(evs, i + 1, j, nm) == 0);
}

/// A `proto` element's body holds only `name` and `ptype` tags.
proof fn lemma_proto_no_tag(
    evs: Seq<XmlEventV>,
    i: int,
    nm0: Seq<char>,
    pr: Seq<char>,
    rnm: Seq<char>,
    rpr: Seq<char>,
    j: int,
    nm: Seq<char>,
)
    requires
        proto_loop(evs, i, nm0, pr) == Some((rnm, rpr, j)),
        nm != "name"@,
        nm != "ptype"@,
    ensures
        i < j <= evs.len(),
        count_tag_named(evs, i, j, nm) == 0,
    decreases evs.len() - i,
{
    match evs[i] {
        XmlEventV::End { name } => {
            assert(count_tag_named(evs, i + 1, j, nm) == 0);
        },
        XmlEventV::Text { text } => {
            lemma_proto_no_tag(evs, i + 1, nm0, pr + text, rnm, rpr, j, nm);
        },
        XmlEventV::Start { name, attrs } => {
            if name == "name"@ {
                let g = grab_text(evs, i + 1, "name"@)->Some_0;
                lemma_grab_no_tag(evs, i + 1, "name"@, g.0, g.1, nm);
                lemma_proto_no_tag(evs, g.1, nm0 + g.0, pr + g.0, rnm, rpr, j, nm);
                lemma_count_tag_split(evs, i + 1, g.1, j, nm);
            } else {
                let g = grab_text(evs, i + 1, "ptype"@)->Some_0;
                lemma_grab_no_tag(evs, i + 1, "ptype"@, g.0, g.1, nm);
                lemma_proto_no_tag(evs, g.1, nm0, pr + g.0, rnm, rpr, j, nm);
                lemma_count_tag_split(evs, i + 1, g.1, j, nm);
            }
        },
        _ => {
        },
    }
}

/// A `param` element's body holds only `name` and `ptype` tags.
proof fn lemma_param_no_tag(
    evs: Seq<XmlEventV>,
    i: int,
    acc: Seq<char>,
    t: Seq<char>,
    j: int,
    nm: Seq<char>,
)
    requires
        param_text_loop(evs, i, acc) == Some((t, j)),
        nm != "name"@,
        nm != "ptype"@,
    ensures
        i < j <= evs.len(),
        count_tag_named(evs, i, j, nm) == 0,
    decreases evs.len() - i,
{
    match evs[i] {
        XmlEventV::End { name } => {
            assert(count_tag_named(evs, i + 1, j, nm) == 0);
        },
        XmlEventV::Text { text } => {
            lemma_param_no_tag(evs, i + 1, acc + text, t, j, nm);
        },
        XmlEventV::Start { name, attrs } => {
            if name == "ptype"@ {
                let g = grab_text(evs, i + 1, "ptype"@)->Some_0;
                lemma_grab_no_tag(evs, i + 1, "ptype"@, g.0, g.1, nm);
                lemma_param_no_tag(evs, g.1, acc + g.0, t, j, nm);
                lemma_count_tag_split(evs, i + 1, g.1, j, nm);
            } else {
                let g = grab_text(evs, i + 1, "name"@)->Some_0;
                lemma_grab_no_tag(evs, i + 1, "name"@, g.0, g.1, nm);
                lemma_param_no_tag(evs, g.1, acc + " "@ + g.0, t, j, nm);
                lemma_count_tag_split(evs, i + 1, g.1, j, nm);
            }
        },
        _ => {
        },
    }
}

/// A `command` element's body holds only `proto`, `param`, `name`,
/// `ptype`, `glx`, `alias` and `vecequiv` tags.
proof fn lemma_command_no_tag(
    evs: Seq<XmlEventV>,
    i: int,
    st: GlCommandV,
    rc: GlCommandV,
    j: int,
    nm: Seq<char>,
)
    requires
        command_loop(evs, i, st) == Some((rc, j)),
        nm != "proto"@,
        nm != "param"@,
        nm != "name"@,
        nm != "ptype"@,
        nm != "glx"@,
        nm != "alias"@,
        nm != "vecequiv"@,
    ensures
        i < j <= evs.len(),
        count_tag_named(evs, i, j, nm) == 0,
    decreases evs.len() - i,
{
    match evs[i] {
        XmlEventV::End { name } => {
            assert(count_tag_named(evs, i + 1, j, nm) == 0);
        },
        XmlEventV::Start { name, attrs } => {
            if name == "proto"@ {
                let ps = attrs_of(attrs)->Some_0;
                let g = proto_attrs_loop(ps, 0, st.proto_group)->Some_0;
                let pl = proto_loop(evs, i + 1, st.name, st.proto)->Some_0;
                lemma_proto_no_tag(evs, i + 1, st.name, st.proto, pl.0, pl.1, pl.2, nm);
                lemma_command_no_tag(
                    evs,
                    pl.2,
                    GlCommandV { name: pl.0, proto: pl.1, proto_group: g, ..st },
                    rc,
                    j,
                    nm,
                );
                lemma_count_tag_split(evs, i + 1, pl.2, j, nm);
            } else {
                let pf = param_of(evs, i + 1, attrs)->Some_0;
                let tl = param_text_loop(evs, i + 1, Seq::empty())->Some_0;
                lemma_param_no_tag(evs, i + 1, Seq::empty(), tl.0, tl.1, nm);
                lemma_command_no_tag(
                    evs,
                    pf.1,
                    GlCommandV { params: st.params.push(pf.0), ..st },
                    rc,
                    j,
                    nm,
                );
                lemma_count_tag_split(evs, i + 1, pf.1, j, nm);
            }
        },
        XmlEventV::Empty { name, attrs } => {
            if name == "glx"@ {
                lemma_command_no_tag(
                    evs,
                    i + 1,
                    GlCommandV { glx_attrs: Some(attrs), ..st },
                    rc,
                    j,
                    nm,
                );
            } else if name == "alias"@ {
                let ps = attrs_of(attrs)->Some_0;
                let a = single_name_loop(ps, 0, st.alias_of)->Some_0;
                lemma_command_no_tag(evs, i + 1, GlCommandV { alias_of: a, ..st }, rc, j, nm);
            } else {
                let ps = attrs_of(attrs)->Some_0;
                let a = single_name_loop(ps, 0, st.vec_equivalent)->Some_0;
                lemma_command_no_tag(
                    evs,
                    i + 1,
                    GlCommandV { vec_equivalent: a, ..st },
                    rc,
                    j,
                    nm,
                );
            }
        },
        _ => {
        },
    }
}

/// A `commands` section holds only `command` elements and what stands
/// inside them.
proof fn lemma_commands_no_tag(
    evs: Seq<XmlEventV>,
    i: int,
    acc: Seq<GlCommandV>,
    r: Seq<GlCommandV>,
    j: int,
    nm: Seq<char>,
)
    requires
        commands_section(evs, i, acc) == Some((r, j)),
        nm != "command"@,
        nm != "proto"@,
        nm != "param"@,
        nm != "name"@,
        nm != "ptype"@,
        nm != "glx"@,
        nm != "alias"@,
        nm != "vecequiv"@,
    ensures
        i < j <= evs.len(),
        count_tag_named(evs, i, j, nm) == 0,
    decreases evs.len() - i,
{
    match evs[i] {
        XmlEventV::End { name } => {
            assert(count_tag_named(evs, i + 1, j, nm) == 0);
        },
        XmlEventV::Start { name, attrs } => {
            let c = command_of(evs, i + 1, attrs)->Some_0;
            lemma_command_no_tag(evs, i + 1, command_init(), c.0, c.1, nm);
            lemma_commands_no_tag(evs, c.1, acc.push(c.0), r, j, nm);
            lemma_count_tag_split(evs, i + 1, c.1, j, nm);
        },
        _ => {
        },
    }
}

/// A `type` element's body holds only `name` and `apientry` tags.
proof fn lemma_type_text_no_tag(
    evs: Seq<XmlEventV>,
    i: int,
    acc: Seq<char>,
    t: Seq<char>,
    j: int,
    nm: Seq<char>,
)
    requires
        type_text_loop(evs, i, acc) == Some((t, j)),
        nm != "name"@,
        nm != "apientry"@,
    ensures
        i < j <= evs.len(),
        count_tag_named(evs, i, j, nm) == 0,
    decreases evs.len() - i,
{
    match evs[i] {
        XmlEventV::End { name } => {
            assert(count_tag_named(evs, i + 1, j, nm) == 0);
        },
        XmlEventV::Text { text } => {
            lemma_type_text_no_tag(evs, i + 1, acc + trimmed(text), t, j, nm);
        },
        XmlEventV::Start { name, attrs } => {
            let g = grab_text(evs, i + 1, "name"@)->Some_0;
            lemma_grab_no_tag(evs, i + 1, "name"@, g.0, g.1, nm);
            lemma_type_text_no_tag(
                evs,
                g.1,
                if acc.len() == 0 {
                    g.0
                } else {
                    acc + " "@ + g.0
                },
                t,
                j,
                nm,
            );
            lemma_count_tag_split(evs, i + 1, g.1, j, nm);
        },
        XmlEventV::Empty { name, attrs } => {
            lemma_type_text_no_tag(evs, i + 1, acc, t, j, nm);
        },
    }
}

/// A `types` section holds only `type` elements and what stands inside
/// them.
proof fn lemma_types_no_tag(
    evs: Seq<XmlEventV>,
    i: int,
    acc: Seq<GlTypeV>,
    r: Seq<GlTypeV>,
    j: int,
    nm: Seq<char>,
)
    requires
        types_section(evs, i, acc) == Some((r, j)),
        nm != "type"@,
        nm != "name"@,
        nm != "apientry"@,
    ensures
        i < j <= evs.len(),
        count_tag_named(evs, i, j, nm) == 0,
    decreases evs.len() - i,
{
    match evs[i] {
        XmlEventV::End { name } => {
            assert(count_tag_named(evs, i + 1, j, nm) == 0);
        },
        XmlEventV::Start { name, attrs } => {
            let e = type_entry(evs, i + 1)->Some_0;
            let tl = type_text_loop(evs, i + 1, Seq::empty())->Some_0;
            lemma_type_text_no_tag(evs, i + 1, Seq::empty(), tl.0, tl.1, nm);
            lemma_types_no_tag(
                evs,
                e.1,
                match e.0 {
                    Some(t) => acc.push(t),
                    None => acc,
                },
                r,
                j,
                nm,
            );
            lemma_count_tag_split(evs, i + 1, e.1, j, nm);
        },
        _ => {
        },
    }
}

/// An `enums` section's entries hold only `enum` and `unused` tags.
proof fn lemma_enums_no_tag(
    evs: Seq<XmlEventV>,
    i: int,
    bm: bool,
    acc: Seq<GlEnumV>,
    r: Seq<GlEnumV>,
    j: int,
    nm: Seq<char>,
)
    requires
        enums_entries(evs, i, bm, acc) == Some((r, j)),
        nm != "enum"@,
        nm != "unused"@,
    ensures
        i < j <= evs.len(),
        count_tag_named(evs, i, j, nm) == 0,
    decreases evs.len() - i,
{
    match evs[i] {
        XmlEventV::End { name } => {
            assert(count_tag_named(evs, i + 1, j, nm) == 0);
        },
        XmlEventV::Empty { name, attrs } => {
            if name == "unused"@ {
                lemma_enums_no_tag(evs, i + 1, bm, acc, r, j, nm);
            } else {
                let e = gl_enum_of(attrs, bm)->Some_0;
                lemma_enums_no_tag(evs, i + 1, bm, acc.push(e), r, j, nm);
            }
        },
        _ => {
        },
    }
}

/// A `require` block's entries hold only `type`, `enum` and `command`
/// tags.
proof fn lemma_require_no_tag(
    evs: Seq<XmlEventV>,
    i: int,
    p: Option<Seq<char>>,
    a: Option<ApiGroup>,
    acc: Seq<GlRequirementV>,
    r: Seq<GlRequirementV>,
    j: int,
    nm: Seq<char>,
)
    requires
        require_items(evs, i, p, a, acc) == Some((r, j)),
        nm != "type"@,
        nm != "enum"@,
        nm != "command"@,
    ensures
        i < j <= evs.len(),
        count_tag_named(evs, i, j, nm) == 0,
    decreases evs.len() - i,
{
    match evs[i] {
        XmlEventV::End { name } => {
            assert(count_tag_named(evs, i + 1, j, nm) == 0);
        },
        XmlEventV::Empty { name, attrs } => {
            let ps = attrs_of(attrs)->Some_0;
            let ns = entry_names_loop(ps, 0, Seq::empty())->Some_0;
            lemma_require_no_tag(
                evs,
                i + 1,
                p,
                a,
                acc + reqs_of_names(ns, p, a, name),
                r,
                j,
                nm,
            );
        },
        _ => {
        },
    }
}

/// A `remove` block's entries hold only `type`, `enum` and `command`
/// tags.
proof fn lemma_remove_no_tag(
    evs: Seq<XmlEventV>,
    i: int,
    p: Option<Seq<char>>,
    acc: Seq<GlRemovalV>,
    r: Seq<GlRemovalV>,
    j: int,
    nm: Seq<char>,
)
    requires
        remove_items(evs, i, p, acc) == Some((r, j)),
        nm != "type"@,
        nm != "enum"@,
        nm != "command"@,
    ensures
        i < j <= evs.len(),
        count_tag_named(evs, i, j, nm) == 0,
    decreases evs.len() - i,
{
    match evs[i] {
        XmlEventV::End { name } => {
            assert(count_tag_named(evs, i + 1, j, nm) == 0);
        },
        XmlEventV::Empty { name, attrs } => {
            let ps = attrs_of(attrs)->Some_0;
            let ns = entry_names_loop(ps, 0, Seq::empty())->Some_0;
            lemma_remove_no_tag(evs, i + 1, p, acc + rems_of_names(ns, p, name), r, j, nm);
        },
        _ => {
        },
    }
}

/// A `feature` element's body holds only `require` and `remove` blocks
/// and their entries.
proof fn lemma_feature_no_tag(
    evs: Seq<XmlEventV>,
    i: int,
    st: GlFeatureV,
    rf: GlFeatureV,
    j: int,
    nm: Seq<char>,
)
    requires
        feature_loop(evs, i, st) == Some((rf, j)),
        nm != "require"@,
        nm != "remove"@,
        nm != "type"@,
        nm != "enum"@,
        nm != "command"@,
    ensures
        i < j <= evs.len(),
        count_tag_named(evs, i, j, nm) == 0,
    decreases evs.len() - i,
{
    match evs[i] {
        XmlEventV::End { name } => {
            assert(count_tag_named(evs, i + 1, j, nm) == 0);
        },
        XmlEventV::Start { name, attrs } => {
            let ps = attrs_of(attrs)->Some_0;
            if name == "require"@ {
                let pa = require_attrs_loop(ps, 0, None, None)->Some_0;
                let rs = require_items(evs, i + 1, pa.0, pa.1, st.required)->Some_0;
                lemma_require_no_tag(evs, i + 1, pa.0, pa.1, st.required, rs.0, rs.1, nm);
                lemma_feature_no_tag(evs, rs.1, GlFeatureV { required: rs.0, ..st }, rf, j, nm);
                lemma_count_tag_split(evs, i + 1, rs.1, j, nm);
            } else {
                let p = profile_attrs_loop(ps, 0, None)->Some_0;
                let rs = remove_items(evs, i + 1, p, st.remove)->Some_0;
                lemma_remove_no_tag(evs, i + 1, p, st.remove, rs.0, rs.1, nm);
                lemma_feature_no_tag(evs, rs.1, GlFeatureV { remove: rs.0, ..st }, rf, j, nm);
                lemma_count_tag_split(evs, i + 1, rs.1, j, nm);
            }
        },
        XmlEventV::Empty { name, attrs } => {
            lemma_feature_no_tag(evs, i + 1, st, rf, j, nm);
        },
        _ => {
        },
    }
}

/// An `extension` element's body holds only `require` blocks and their
/// entries.
proof fn lemma_ext_no_tag(
    evs: Seq<XmlEventV>,
    i: int,
    st: GlExtensionV,
    rx: GlExtensionV,
    j: int,
    nm: Seq<char>,
)
    requires
        ext_loop(evs, i, st) == Some((rx, j)),
        nm != "require"@,
        nm != "type"@,
        nm != "enum"@,
        nm != "command"@,
    ensures
        i < j <= evs.len(),
        count_tag_named(evs, i, j, nm) == 0,
    decreases evs.len() - i,
{
    match evs[i] {
        XmlEventV::End { name } => {
            assert(count_tag_named(evs, i + 1, j, nm) == 0);
        },
        XmlEventV::Start { name, attrs } => {
            let ps = attrs_of(attrs)->Some_0;
            let pa = require_attrs_loop(ps, 0, None, None)->Some_0;
            let rs = require_items(evs, i + 1, pa.0, pa.1, st.required)->Some_0;
            lemma_require_no_tag(evs, i + 1, pa.0, pa.1, st.required, rs.0, rs.1, nm);
            lemma_ext_no_tag(evs, rs.1, GlExtensionV { required: rs.0, ..st }, rx, j, nm);
            lemma_count_tag_split(evs, i + 1, rs.1, j, nm);
        },
        _ => {
        },
    }
}

/// The walk yields exactly one extension per `extension` element or
/// self-closing tag anywhere in the document, on documents whose skipped
/// comment and groups blocks are absent.
#[verifier::rlimit(100)]
pub proof fn lemma_registry_extensions_count(
    evs: Seq<XmlEventV>,
    i: int,
    acc: GlRegistryV,
    r: GlRegistryV,
    j: int,
)
    requires
        registry_loop(evs, i, acc) == Some((r, j)),
        forall|k: int|
            i <= k < j ==> !(#[trigger] evs[k] matches XmlEventV::Start { name, attrs }
                && (name == "comment"@ || name == "groups"@)),
    ensures
        i < j <= evs.len(),
        r.gl_extensions.len() == acc.gl_extensions.len() + count_tag_named(
            evs,
            i,
            j - 1,
            "extension"@,
        ),
    decreases evs.len() - i,
{
    reveal_strlit("registry");
    reveal_strlit("comment");
    reveal_strlit("groups");
    reveal_strlit("types");
    reveal_strlit("type");
    reveal_strlit("name");
    reveal_strlit("ptype");
    reveal_strlit("apientry");
    reveal_strlit("enums");
    reveal_strlit("enum");
    reveal_strlit("unused");
    reveal_strlit("commands");
    reveal_strlit("command");
    reveal_strlit("proto");
    reveal_strlit("param");
    reveal_strlit("glx");
    reveal_strlit("alias");
    reveal_strlit("vecequiv");
    reveal_strlit("feature");
    reveal_strlit("require");
    reveal_strlit("remove");
    reveal_strlit("extensions");
    reveal_strlit("extension");
    let x = "extension"@;
    assert(x.len() == 9);
    assert(x != "extensions"@) by {
        assert("extensions"@.len() == 10);
    };
    assert(x != "enums"@) by {
        assert("enums"@.len() == 5);
    };
    assert(x != "type"@) by {
        assert("type"@.len() == 4);
    };
    assert(x != "name"@) by {
        assert("name"@.len() == 4);
    };
    assert(x != "ptype"@) by {
        assert("ptype"@.len() == 5);
    };
    assert(x != "apientry"@) by {
        assert("apientry"@.len() == 8);
    };
    assert(x != "enum"@) by {
        assert("enum"@.len() == 4);
    };
    assert(x != "unused"@) by {
        assert("unused"@.len() == 6);
    };
    assert(x != "command"@) by {
        assert("command"@.len() == 7);
    };
    assert(x != "proto"@) by {
        assert("proto"@.len() == 5);
    };
    assert(x != "param"@) by {
        assert("param"@.len() == 5);
    };
    assert(x != "glx"@) by {
        assert("glx"@.len() == 3);
    };
    assert(x != "alias"@) by {
        assert("alias"@.len() == 5);
    };
    assert(x != "vecequiv"@) by {
        assert("vecequiv"@.len() == 8);
    };
    assert(x != "require"@) by {
        assert("require"@.len() == 7);
    };
    assert(x != "remove"@) by {
        assert("remove"@.len() == 6);
    };
    match evs[i] {
        XmlEventV::End { name } => {
        },
        XmlEventV::Start { name, attrs } => {
            if name == "comment"@ && attrs.len() == 0 {
                let j2 = skip_section(evs, i + 1, "comment"@)->Some_0;
                lemma_registry_extensions_count(evs, j2, acc, r, j);
                assert(i <= i < j);
                assert(false);
            } else if name == "groups"@ && attrs.len() == 0 {
                let j2 = skip_section(evs, i + 1, "groups"@)->Some_0;
                lemma_registry_extensions_count(evs, j2, acc, r, j);
                assert(i <= i < j);
                assert(false);
            } else if name == "types"@ && attrs.len() == 0 {
                let ts = types_section(evs, i + 1, acc.gl_types)->Some_0;
                lemma_types_no_tag(evs, i + 1, acc.gl_types, ts.0, ts.1, x);
                lemma_registry_extensions_count(
                    evs,
                    ts.1,
                    GlRegistryV { gl_types: ts.0, ..acc },
                    r,
                    j,
                );
                lemma_count_tag_split(evs, i + 1, ts.1, j - 1, x);
            } else if name == "enums"@ {
                let es = enums_section(evs, i + 1, attrs, acc.gl_enums)->Some_0;
                let ps = attrs_of(attrs)->Some_0;
                let bm = enums_attrs_loop(ps, 0, false)->Some_0;
                lemma_enums_no_tag(evs, i + 1, bm, acc.gl_enums, es.0, es.1, x);
                lemma_registry_extensions_count(
                    evs,
                    es.1,
                    GlRegistryV { gl_enums: es.0, ..acc },
                    r,
                    j,
                );
                lemma_count_tag_split(evs, i + 1, es.1, j - 1, x);
            } else if name == "commands"@ && attrs == "namespace=\"GL\""@ {
                let cs = commands_section(evs, i + 1, acc.gl_commands)->Some_0;
                lemma_commands_no_tag(evs, i + 1, acc.gl_commands, cs.0, cs.1, x);
                lemma_registry_extensions_count(
                    evs,
                    cs.1,
                    GlRegistryV { gl_commands: cs.0, ..acc },
                    r,
                    j,
                );
                lemma_count_tag_split(evs, i + 1, cs.1, j - 1, x);
            } else if name == "feature"@ {
                let fe = feature_of(evs, i + 1, attrs)->Some_0;
                let ps = attrs_of(attrs)->Some_0;
                let hd = feature_attrs_loop(ps, 0, ApiGroup::Gl, Seq::empty(), Seq::empty())->Some_0;
                lemma_feature_no_tag(
                    evs,
                    i + 1,
                    GlFeatureV {
                        api: hd.0,
                        name: hd.1,
                        number: hd.2,
                        required: Seq::empty(),
                        remove: Seq::empty(),
                    },
                    fe.0,
                    fe.1,
                    x,
                );
                lemma_registry_extensions_count(
                    evs,
                    fe.1,
                    GlRegistryV { gl_features: acc.gl_features.push(fe.0), ..acc },
                    r,
                    j,
                );
                lemma_count_tag_split(evs, i + 1, fe.1, j - 1, x);
            } else if name == "extensions"@ && attrs.len() == 0 {
                let xs = extensions_section(evs, i + 1, acc.gl_extensions)->Some_0;
                lemma_registry_extensions_count(
                    evs,
                    xs.1,
                    GlRegistryV { gl_extensions: xs.0, ..acc },
                    r,
                    j,
                );
                lemma_extensions_count(evs, i + 1, acc.gl_extensions, xs.0, xs.1);
                lemma_count_tag_split(evs, i + 1, xs.1, j - 1, x);
            } else {
                assert(false);
            }
        },
        XmlEventV::Empty { name, attrs } => {
            lemma_registry_extensions_count(evs, i + 1, acc, r, j);
        },
        _ => {
        },
    }
}

} // verus!
