//! The on-disk codec of the configuration document.
//!
//! A document is a sequence of lines. A line is either a `key: value` field,
//! the `ssb_admin_ids:` list header followed by `- item` lines, a comment
//! (`#`), a document-start marker (`---`), or blank. Fields may appear in any
//! subset and in any order; a missing field keeps its default, so documents
//! written under an older schema still load. The serializer always writes
//! every field in a fixed order.
//!
//! The module proves the two laws the store rests on: a document holding any
//! subset of the fields parses to the model whose absent fields are default,
//! and parsing a serialized document gives the document back.

use vstd::prelude::*;

use crate::config_manager::{default_model, ConfigModel, PeachConfig};
use crate::error::PeachError;
use crate::strutil;

verus! {

// ---------------------------------------------------------------------------
// Splitting text into lines
// ---------------------------------------------------------------------------
/// Position of the first newline of `s`, or its length if there is none.
pub open spec fn first_nl(s: Seq<char>) -> nat
    decreases s.len(),
{
    if s.len() == 0 {
        0
    } else if s[0] == '\n' {
        0
    } else {
        1 + first_nl(s.drop_first())
    }
}

/// The lines of `s`: the segments between newlines. Text without a final
/// newline still yields a final (possibly empty) line.
pub open spec fn split_lines(s: Seq<char>) -> Seq<Seq<char>>
    decreases s.len(),
{
    let i = first_nl(s);
    if i >= s.len() {
        seq![s]
    } else {
        seq![s.take(i as int)] + split_lines(s.skip(i as int + 1))
    }
}

// ---------------------------------------------------------------------------
// Line forms
// ---------------------------------------------------------------------------
/// A line the parser passes over: blank, a comment, or the document marker.
pub open spec fn is_skip_line(line: Seq<char>) -> bool {
    line.len() == 0 || line == "---"@ || line[0] == '#'
}

/// The content of a list-item line (`- item`), if the line is one.
pub open spec fn item_line(line: Seq<char>) -> Option<Seq<char>> {
    if line.len() >= 2 && line[0] == '-' && line[1] == ' ' {
        Some(line.skip(2))
    } else if line == "-"@ {
        Some(Seq::empty())
    } else {
        None
    }
}

/// The value of `line` if it is a `key: value` field for `key`: the text
/// after the colon, less one leading space if present.
pub open spec fn key_value(line: Seq<char>, key: Seq<char>) -> Option<Seq<char>> {
    if line.len() > key.len() && line.take(key.len() as int) == key && line[key.len() as int]
        == ':' {
        let rest = line.skip(key.len() as int + 1);
        if rest.len() > 0 && rest[0] == ' ' {
            Some(rest.drop_first())
        } else {
            Some(rest)
        }
    } else {
        None
    }
}

// ---------------------------------------------------------------------------
// The parser, line by line
// ---------------------------------------------------------------------------
/// Parser state: the model built so far and whether the admin-id list is
/// the innermost open construct.
#[verifier::ext_equal]
pub struct ParseState {
    pub m: ConfigModel,
    pub in_list: bool,
}

/// The state before the first line: every field default, no list open.
pub open spec fn init_state() -> ParseState {
    ParseState { m: default_model(), in_list: false }
}

/// One step of the parser: how `line` transforms the state, or `None` if the
/// line belongs to no form of the document.
pub open spec fn parse_line(st: ParseState, line: Seq<char>) -> Option<ParseState> {
    if is_skip_line(line) {
        Some(st)
    } else if st.in_list && item_line(line) is Some {
        Some(
            ParseState {
                m: ConfigModel {
                    ssb_admin_ids: st.m.ssb_admin_ids.push(item_line(line)->Some_0),
                    ..st.m
                },
                in_list: true,
            },
        )
    } else {
        match key_value(line, "external_domain"@) {
            Some(v) => Some(
                ParseState { m: ConfigModel { external_domain: v, ..st.m }, in_list: false },
            ),
            None => match key_value(line, "dyn_domain"@) {
                Some(v) => Some(
                    ParseState { m: ConfigModel { dyn_domain: v, ..st.m }, in_list: false },
                ),
                None => match key_value(line, "dyn_dns_server_address"@) {
                    Some(v) => Some(
                        ParseState {
                            m: ConfigModel { dyn_dns_server_address: v, ..st.m },
                            in_list: false,
                        },
                    ),
                    None => match key_value(line, "dyn_tsig_key_path"@) {
                        Some(v) => Some(
                            ParseState {
                                m: ConfigModel { dyn_tsig_key_path: v, ..st.m },
                                in_list: false,
                            },
                        ),
                        None => match key_value(line, "dyn_enabled"@) {
                            Some(v) => Some(
                                ParseState {
                                    m: ConfigModel { dyn_enabled: v == "true"@, ..st.m },
                                    in_list: false,
                                },
                            ),
                            None => match key_value(line, "ssb_admin_ids"@) {
                                Some(_v) => Some(
                                    ParseState {
                                        m: ConfigModel { ssb_admin_ids: Seq::empty(), ..st.m },
                                        in_list: true,
                                    },
                                ),
                                None => None,
                            },
                        },
                    },
                },
            },
        }
    }
}

/// The parser folded over a sequence of lines.
pub open spec fn run_lines(ls: Seq<Seq<char>>, st: ParseState) -> Option<ParseState>
    decreases ls.len(),
{
    if ls.len() == 0 {
        Some(st)
    } else {
        match parse_line(st, ls[0]) {
            Some(st2) => run_lines(ls.drop_first(), st2),
            None => None,
        }
    }
}

/// What a document's text means, or `None` if it is corrupt.
pub open spec fn spec_parse(s: Seq<char>) -> Option<ConfigModel> {
    match run_lines(split_lines(s), init_state()) {
        Some(st) => Some(st.m),
        None => None,
    }
}

// ---------------------------------------------------------------------------
// The serializer
// ---------------------------------------------------------------------------
/// One `key: value` line, newline included.
pub open spec fn ser_field(key: Seq<char>, value: Seq<char>) -> Seq<char> {
    key + ": "@ + value + "\n"@
}

/// The text of a boolean field value.
pub open spec fn bool_text(b: bool) -> Seq<char> {
    if b {
        "true"@
    } else {
        "false"@
    }
}

/// The `- item` lines of the admin-id list.
pub open spec fn ser_items(items: Seq<Seq<char>>) -> Seq<char>
    decreases items.len(),
{
    if items.len() == 0 {
        Seq::empty()
    } else {
        "- "@ + items[0] + "\n"@ + ser_items(items.drop_first())
    }
}

/// The list header with its items.
pub open spec fn ser_list(items: Seq<Seq<char>>) -> Seq<char> {
    "ssb_admin_ids"@ + ":\n"@ + ser_items(items)
}

/// Which fields a document carries.
pub struct FieldMask {
    pub external_domain: bool,
    pub dyn_domain: bool,
    pub dyn_dns_server_address: bool,
    pub dyn_tsig_key_path: bool,
    pub dyn_enabled: bool,
    pub ssb_admin_ids: bool,
}

/// The mask of a fully populated document.
pub open spec fn full_mask() -> FieldMask {
    FieldMask {
        external_domain: true,
        dyn_domain: true,
        dyn_dns_server_address: true,
        dyn_tsig_key_path: true,
        dyn_enabled: true,
        ssb_admin_ids: true,
    }
}

/// The text of a document carrying exactly the fields of `inc`, in the
/// serializer's fixed order.
pub open spec fn ser_subset(m: ConfigModel, inc: FieldMask) -> Seq<char> {
    (if inc.external_domain {
        ser_field("external_domain"@, m.external_domain)
    } else {
        Seq::empty()
    }) + (if inc.dyn_domain {
        ser_field("dyn_domain"@, m.dyn_domain)
    } else {
        Seq::empty()
    }) + (if inc.dyn_dns_server_address {
        ser_field("dyn_dns_server_address"@, m.dyn_dns_server_address)
    } else {
        Seq::empty()
    }) + (if inc.dyn_tsig_key_path {
        ser_field("dyn_tsig_key_path"@, m.dyn_tsig_key_path)
    } else {
        Seq::empty()
    }) + (if inc.dyn_enabled {
        ser_field("dyn_enabled"@, bool_text(m.dyn_enabled))
    } else {
        Seq::empty()
    }) + (if inc.ssb_admin_ids {
        ser_list(m.ssb_admin_ids)
    } else {
        Seq::empty()
    })
}

/// The text the serializer writes: every field present.
pub open spec fn spec_serialize(m: ConfigModel) -> Seq<char> {
    ser_subset(m, full_mask())
}

/// `m` restricted to the fields of `inc`; the rest at their defaults.
pub open spec fn masked_model(m: ConfigModel, inc: FieldMask) -> ConfigModel {
    ConfigModel {
        external_domain: if inc.external_domain {
            m.external_domain
        } else {
            Seq::empty()
        },
        dyn_domain: if inc.dyn_domain {
            m.dyn_domain
        } else {
            Seq::empty()
        },
        dyn_dns_server_address: if inc.dyn_dns_server_address {
            m.dyn_dns_server_address
        } else {
            Seq::empty()
        },
        dyn_tsig_key_path: if inc.dyn_tsig_key_path {
            m.dyn_tsig_key_path
        } else {
            Seq::empty()
        },
        dyn_enabled: inc.dyn_enabled && m.dyn_enabled,
        ssb_admin_ids: if inc.ssb_admin_ids {
            m.ssb_admin_ids
        } else {
            Seq::empty()
        },
    }
}

/// A model the line-based format can carry: no field value holds a newline.
pub open spec fn model_wf(m: ConfigModel) -> bool {
    &&& !m.external_domain.contains('\n')
    &&& !m.dyn_domain.contains('\n')
    &&& !m.dyn_dns_server_address.contains('\n')
    &&& !m.dyn_tsig_key_path.contains('\n')
    &&& forall|i: int|
        0 <= i < m.ssb_admin_ids.len() ==> !(#[trigger] m.ssb_admin_ids[i]).contains('\n')
}

// ---------------------------------------------------------------------------
// Exec serializer
// ---------------------------------------------------------------------------
/// Appends one `key: value` line to `out`.
fn append_field(out: &mut String, key: &str, value: &str)
    ensures
        final(out)@ == old(out)@ + ser_field(key@, value@),
{
    out.append(key);
    out.append(": ");
    out.append(value);
    out.append("\n");
    proof {
        assert(out@ =~= old(out)@ + ser_field(key@, value@));
    }
}

/// A later item extends the item lines at their end.
proof fn lemma_ser_items_snoc(items: Seq<Seq<char>>, j: int)
    requires
        0 <= j < items.len(),
    ensures
        ser_items(items.take(j + 1)) == ser_items(items.take(j)) + ("- "@ + items[j] + "\n"@),
    decreases j,
{
    assert(ser_items(Seq::<Seq<char>>::empty()) =~= Seq::<char>::empty());
    if j == 0 {
        assert(items.take(1)[0] == items[0]);
        assert(items.take(1).drop_first() =~= Seq::<Seq<char>>::empty());
        assert(items.take(0) =~= Seq::<Seq<char>>::empty());
        assert(ser_items(items.take(1)) =~= Seq::<char>::empty() + ("- "@ + items[0] + "\n"@));
        assert(ser_items(items.take(0)) + ("- "@ + items[0] + "\n"@) =~= Seq::<char>::empty() + (
        "- "@ + items[0] + "\n"@));
    } else {
        lemma_ser_items_snoc(items.drop_first(), j - 1);
        assert(items.take(j + 1)[0] == items[0]);
        assert(items.take(j + 1).drop_first() =~= items.drop_first().take(j));
        assert(items.take(j)[0] == items[0]);
        assert(items.take(j).drop_first() =~= items.drop_first().take(j - 1));
        assert(items.drop_first()[j - 1] == items[j]);
        assert(ser_items(items.take(j + 1)) =~= ("- "@ + items[0] + "\n"@) + (ser_items(
            items.drop_first().take(j - 1),
        ) + ("- "@ + items[j] + "\n"@)));
        assert(ser_items(items.take(j)) + ("- "@ + items[j] + "\n"@) =~= ("- "@ + items[0] + "\n"@)
            + (ser_items(items.drop_first().take(j - 1)) + ("- "@ + items[j] + "\n"@)));
    }
}

/// Writes the full document text for `config`.
pub fn serialize_peach_config(config: &PeachConfig) -> (r: String)
    ensures
        r@ == spec_serialize(config@),
{
    let mut out = String::new();
    append_field(&mut out, "external_domain", config.external_domain.as_str());
    append_field(&mut out, "dyn_domain", config.dyn_domain.as_str());
    append_field(&mut out, "dyn_dns_server_address", config.dyn_dns_server_address.as_str());
    append_field(&mut out, "dyn_tsig_key_path", config.dyn_tsig_key_path.as_str());
    if config.dyn_enabled {
        append_field(&mut out, "dyn_enabled", "true");
    } else {
        append_field(&mut out, "dyn_enabled", "false");
    }
    out.append("ssb_admin_ids");
    out.append(":\n");
    let ghost head = out@;
    let n = config.ssb_admin_ids.len();
    let mut i: usize = 0;
    proof {
        assert(config@.ssb_admin_ids.take(0) =~= Seq::<Seq<char>>::empty());
        assert(out@ =~= head + ser_items(config@.ssb_admin_ids.take(0)));
    }
    while i < n
        invariant
            n == config.ssb_admin_ids.len(),
            i <= n,
            out@ == head + ser_items(config@.ssb_admin_ids.take(i as int)),
        decreases n - i,
    {
        out.append("- ");
        out.append(config.ssb_admin_ids[i].as_str());
        out.append("\n");
        proof {
            lemma_ser_items_snoc(config@.ssb_admin_ids, i as int);
            assert(config@.ssb_admin_ids[i as int] == config.ssb_admin_ids[i as int]@);
            assert(out@ =~= head + ser_items(config@.ssb_admin_ids.take(i as int + 1)));
        }
        i += 1;
    }
    proof {
        assert(config@.ssb_admin_ids.take(n as int) =~= config@.ssb_admin_ids);
        assert(out@ =~= spec_serialize(config@));
    }
    out
}

// ---------------------------------------------------------------------------
// Exec parser
// ---------------------------------------------------------------------------
/// No newline occurs in `s` between `from` and `to`.
spec fn nl_free_range(s: Seq<char>, from: int, to: int) -> bool {
    forall|k: int| from <= k < to ==> s[k] != '\n'
}

/// `first_nl` of newline-free text is its length.
proof fn lemma_first_nl_no_nl(x: Seq<char>)
    requires
        nl_free_range(x, 0, x.len() as int),
    ensures
        first_nl(x) == x.len(),
    decreases x.len(),
{
    if x.len() > 0 {
        assert(forall|k: int|
            0 <= k < x.drop_first().len() ==> x.drop_first()[k] == x[k + 1] && x[k + 1] != '\n');
        lemma_first_nl_no_nl(x.drop_first());
    }
}

/// `first_nl` of newline-free text followed by a newline is the text's
/// length.
proof fn lemma_first_nl_concat(x: Seq<char>, tail: Seq<char>)
    requires
        nl_free_range(x, 0, x.len() as int),
        tail.len() > 0,
        tail[0] == '\n',
    ensures
        first_nl(x + tail) == x.len(),
    decreases x.len(),
{
    if x.len() == 0 {
        assert(x + tail =~= tail);
    } else {
        assert((x + tail)[0] == x[0]);
        assert((x + tail).drop_first() =~= x.drop_first() + tail);
        assert(forall|k: int|
            0 <= k < x.drop_first().len() ==> x.drop_first()[k] == x[k + 1] && x[k + 1] != '\n');
        lemma_first_nl_concat(x.drop_first(), tail);
    }
}

/// Peeling a newline-free line and its newline off the front of a text
/// peels one element off its line sequence.
proof fn lemma_split_lines_prefix(x: Seq<char>, rest: Seq<char>)
    requires
        nl_free_range(x, 0, x.len() as int),
    ensures
        split_lines(x + seq!['\n'] + rest) == seq![x] + split_lines(rest),
{
    let s = x + seq!['\n'] + rest;
    assert(s =~= x + (seq!['\n'] + rest));
    assert((seq!['\n'] + rest)[0] == '\n');
    lemma_first_nl_concat(x, seq!['\n'] + rest);
    assert(first_nl(s) == x.len());
    assert(first_nl(s) < s.len());
    assert(s.take(x.len() as int) =~= x);
    assert(s.skip(x.len() as int + 1) =~= rest);
    assert(split_lines(s) =~= seq![x] + split_lines(rest));
}

/// A text without newlines is one line.
proof fn lemma_split_lines_single(x: Seq<char>)
    requires
        nl_free_range(x, 0, x.len() as int),
    ensures
        split_lines(x) == seq![x],
{
    lemma_first_nl_no_nl(x);
}

/// Splits `s` into its lines.
fn split_lines_exec(s: &str) -> (r: Vec<String>)
    ensures
        r.deep_view() == split_lines(s@),
{
    let n = s.unicode_len();
    let mut r: Vec<String> = Vec::new();
    let mut start: usize = 0;
    let mut j = strutil::find_char_from(s, 0, '\n');
    proof {
        assert(r.deep_view() =~= Seq::<Seq<char>>::empty());
        assert(s@.skip(0) =~= s@);
        assert(split_lines(s@) =~= r.deep_view() + split_lines(s@.skip(0)));
    }
    while j < n
        invariant
            n == s@.len(),
            start <= j <= n,
            nl_free_range(s@, start as int, j as int),
            j < n ==> s@[j as int] == '\n',
            split_lines(s@) == r.deep_view() + split_lines(s@.skip(start as int)),
        decreases n - j,
    {
        let line = strutil::substr_to_string(s, start, j);
        proof {
            let x = s@.subrange(start as int, j as int);
            assert(nl_free_range(x, 0, x.len() as int));
            assert(s@.skip(start as int) =~= x + seq!['\n'] + s@.skip(j as int + 1));
            lemma_split_lines_prefix(x, s@.skip(j as int + 1));
        }
        r.push(line);
        proof {
            assert(r.deep_view() =~= r.deep_view().take(r.deep_view().len() - 1).push(
                s@.subrange(start as int, j as int),
            ));
            assert(split_lines(s@) =~= r.deep_view() + split_lines(s@.skip(j as int + 1)));
        }
        start = j + 1;
        j = strutil::find_char_from(s, start, '\n');
    }
    let line = strutil::substr_to_string(s, start, n);
    proof {
        let x = s@.subrange(start as int, n as int);
        assert(x =~= s@.skip(start as int));
        assert(nl_free_range(x, 0, x.len() as int));
        lemma_split_lines_single(x);
    }
    r.push(line);
    proof {
        assert(r.deep_view() =~= r.deep_view().take(r.deep_view().len() - 1).push(
            s@.skip(start as int),
        ));
        assert(r.deep_view() =~= split_lines(s@));
    }
    r
}

/// Looks for `key: value` on `line`.
fn try_key_value(line: &str, key: &str) -> (r: Option<String>)
    ensures
        match r {
            Some(v) => key_value(line@, key@) == Some(v@),
            None => key_value(line@, key@) is None,
        },
{
    let klen = key.unicode_len();
    let ll = line.unicode_len();
    if ll <= klen {
        return None;
    }
    if !strutil::str_starts_with(line, key) {
        return None;
    }
    if line.get_char(klen) != ':' {
        return None;
    }
    let mut from = klen + 1;
    if from < ll && line.get_char(from) == ' ' {
        from += 1;
    }
    let v = strutil::substr_to_string(line, from, ll);
    proof {
        let rest = line@.skip(klen as int + 1);
        if rest.len() > 0 && rest[0] == ' ' {
            assert(v@ =~= rest.drop_first());
        } else {
            assert(v@ =~= rest);
        }
    }
    Some(v)
}

/// Applies one line to the document being built; `None` rejects the line.
fn parse_line_exec(line: &str, config: PeachConfig, in_list: bool) -> (r: Option<
    (PeachConfig, bool),
>)
    ensures
        match r {
            Some(next) => parse_line(ParseState { m: config@, in_list }, line@) == Some(
                ParseState { m: next.0@, in_list: next.1 },
            ),
            None => parse_line(ParseState { m: config@, in_list }, line@) is None,
        },
{
    let ghost st = ParseState { m: config@, in_list };
    let ll = line.unicode_len();
    if ll == 0 {
        return Some((config, in_list));
    }
    if line.get_char(0) == '#' {
        return Some((config, in_list));
    }
    if strutil::str_eq(line, "---") {
        return Some((config, in_list));
    }
    proof {
        assert(!is_skip_line(line@));
    }
    if in_list {
        if ll >= 2 && line.get_char(0) == '-' && line.get_char(1) == ' ' {
            let item = strutil::substr_to_string(line, 2, ll);
            let mut c = config;
            c.ssb_admin_ids.push(item);
            proof {
                assert(item_line(line@) == Some(line@.skip(2)));
                assert(c.ssb_admin_ids.deep_view() =~= st.m.ssb_admin_ids.push(line@.skip(2)));
                assert(parse_line(st, line@) == Some(
                    ParseState { m: c@, in_list: true },
                ));
            }
            return Some((c, true));
        }
        if ll == 1 && line.get_char(0) == '-' {
            let mut c = config;
            c.ssb_admin_ids.push(String::new());
            proof {
                reveal_strlit("-");
                assert(line@ =~= "-"@);
                assert(item_line(line@) == Some(Seq::<char>::empty()));
                assert(c.ssb_admin_ids.deep_view() =~= st.m.ssb_admin_ids.push(
                    Seq::<char>::empty(),
                ));
                assert(parse_line(st, line@) == Some(
                    ParseState { m: c@, in_list: true },
                ));
            }
            return Some((c, true));
        }
        proof {
            reveal_strlit("-");
            assert(item_line(line@) is None);
        }
    }
    if let Some(v) = try_key_value(line, "external_domain") {
        let mut c = config;
        c.external_domain = v;
        proof {
            assert(c@ =~= (ConfigModel { external_domain: c.external_domain@, ..st.m }));
        }
        return Some((c, false));
    }
    if let Some(v) = try_key_value(line, "dyn_domain") {
        let mut c = config;
        c.dyn_domain = v;
        proof {
            assert(c@ =~= (ConfigModel { dyn_domain: c.dyn_domain@, ..st.m }));
        }
        return Some((c, false));
    }
    if let Some(v) = try_key_value(line, "dyn_dns_server_address") {
        let mut c = config;
        c.dyn_dns_server_address = v;
        proof {
            assert(c@ =~= (ConfigModel {
                dyn_dns_server_address: c.dyn_dns_server_address@,
                ..st.m
            }));
        }
        return Some((c, false));
    }
    if let Some(v) = try_key_value(line, "dyn_tsig_key_path") {
        let mut c = config;
        c.dyn_tsig_key_path = v;
        proof {
            assert(c@ =~= (ConfigModel { dyn_tsig_key_path: c.dyn_tsig_key_path@, ..st.m }));
        }
        return Some((c, false));
    }
    if let Some(v) = try_key_value(line, "dyn_enabled") {
        let mut c = config;
        c.dyn_enabled = strutil::str_eq(v.as_str(), "true");
        proof {
            assert(c@ =~= (ConfigModel {
                dyn_enabled: key_value(line@, "dyn_enabled"@)->Some_0 == "true"@,
                ..st.m
            }));
        }
        return Some((c, false));
    }
    if let Some(_v) = try_key_value(line, "ssb_admin_ids") {
        let mut c = config;
        c.ssb_admin_ids = Vec::new();
        proof {
            assert(c.ssb_admin_ids.deep_view() =~= Seq::<Seq<char>>::empty());
            assert(c@ =~= (ConfigModel { ssb_admin_ids: Seq::empty(), ..st.m }));
        }
        return Some((c, true));
    }
    None
}

/// Reads a document's text into a configuration, or rejects it as corrupt.
pub fn parse_peach_config(s: &str) -> (r: Result<PeachConfig, PeachError>)
    ensures
        match r {
            Ok(c) => spec_parse(s@) == Some(c@),
            Err(e) => spec_parse(s@) is None && e is ParseConfigError,
        },
{
    let lines = split_lines_exec(s);
    let ghost all = split_lines(s@);
    let mut config = PeachConfig::default();
    let mut in_list = false;
    let n = lines.len();
    proof {
        assert(lines.deep_view().len() == n as int);
        assert(all.skip(0) =~= all);
    }
    let mut i: usize = 0;
    while i < n
        invariant
            n == lines.len(),
            i <= n,
            lines.deep_view() == all,
            all == split_lines(s@),
            run_lines(all, init_state()) == run_lines(
                all.skip(i as int),
                ParseState { m: config@, in_list },
            ),
        decreases n - i,
    {
        let ghost st = ParseState { m: config@, in_list };
        proof {
            assert(all[i as int] == lines@[i as int]@);
            assert(all.skip(i as int)[0] == all[i as int]);
            assert(all.skip(i as int).drop_first() =~= all.skip(i as int + 1));
        }
        match parse_line_exec(lines[i].as_str(), config, in_list) {
            Some(next) => {
                config = next.0;
                in_list = next.1;
            },
            None => {
                proof {
                    assert(run_lines(all.skip(i as int), st) is None);
                }
                return Err(
                    PeachError::ParseConfigError { msg: lines[i].clone() },
                );
            },
        }
        i += 1;
    }
    proof {
        assert(all.skip(n as int) =~= Seq::<Seq<char>>::empty());
        assert(run_lines(all, init_state()) == Some(ParseState { m: config@, in_list }));
    }
    Ok(config)
}

// ---------------------------------------------------------------------------
// The two laws of the codec
// ---------------------------------------------------------------------------
/// `key_value` fails when the line differs from the key within the key.
proof fn lemma_key_value_mismatch(x: Seq<char>, key: Seq<char>, d: int)
    requires
        0 <= d < key.len(),
        d < x.len(),
        x[d] != key[d],
    ensures
        key_value(x, key) is None,
{
    if x.len() > key.len() && x.take(key.len() as int) == key {
        assert(x.take(key.len() as int)[d] == x[d]);
        assert(false);
    }
}

/// A field line `key: value` is no skip line, no item line, and yields its
/// value for its own key.
proof fn lemma_field_line_forms(key: Seq<char>, v: Seq<char>)
    requires
        key.len() > 0,
        key[0] != '#',
        key[0] != '-',
    ensures
        !is_skip_line(key + ": "@ + v),
        item_line(key + ": "@ + v) is None,
        key_value(key + ": "@ + v, key) == Some(v),
{
    reveal_strlit(": ");
    reveal_strlit("---");
    reveal_strlit("-");
    let x = key + ": "@ + v;
    assert(x[0] == key[0]);
    assert(x.len() >= key.len() + 2);
    if x == "---"@ {
        assert(x[0] == '-');
        assert(false);
    }
    if x == "-"@ {
        assert(false);
    }
    assert(x.take(key.len() as int) =~= key);
    assert(x[key.len() as int] == ':');
    let rest = x.skip(key.len() as int + 1);
    assert(rest =~= seq![' '] + v);
    assert(rest[0] == ' ');
    assert(rest.drop_first() =~= v);
}

/// The line of a field block is newline-free when its value is.
proof fn lemma_field_line_nl_free(key: Seq<char>, v: Seq<char>)
    requires
        !key.contains('\n'),
        !v.contains('\n'),
    ensures
        nl_free_range(key + ": "@ + v, 0, (key + ": "@ + v).len() as int),
{
    reveal_strlit(": ");
    let x = key + ": "@ + v;
    assert forall|k: int| 0 <= k < x.len() implies x[k] != '\n' by {
        if k < key.len() {
            assert(x[k] == key[k]);
            if key[k] == '\n' {
                assert(key.contains('\n'));
            }
        } else if k < key.len() + 2 {
            assert(x[k] == ": "@[k - key.len()]);
        } else {
            assert(x[k] == v[k - key.len() - 2]);
            if v[k - key.len() - 2] == '\n' {
                assert(v.contains('\n'));
            }
        }
    }
}

/// Running the parser over a field block prefixed to further text applies
/// the field and goes on behind the block.
///
/// `sel` picks the field: 0 external_domain, 1 dyn_domain,
/// 2 dyn_dns_server_address, 3 dyn_tsig_key_path, 4 dyn_enabled.
proof fn lemma_run_field_block(st: ParseState, sel: int, v: Seq<char>, rest: Seq<char>)
    requires
        0 <= sel <= 4,
        !v.contains('\n'),
    ensures
        sel == 0 ==> run_lines(split_lines(ser_field("external_domain"@, v) + rest), st)
            == run_lines(
            split_lines(rest),
            ParseState { m: ConfigModel { external_domain: v, ..st.m }, in_list: false },
        ),
        sel == 1 ==> run_lines(split_lines(ser_field("dyn_domain"@, v) + rest), st) == run_lines(
            split_lines(rest),
            ParseState { m: ConfigModel { dyn_domain: v, ..st.m }, in_list: false },
        ),
        sel == 2 ==> run_lines(split_lines(ser_field("dyn_dns_server_address"@, v) + rest), st)
            == run_lines(
            split_lines(rest),
            ParseState { m: ConfigModel { dyn_dns_server_address: v, ..st.m }, in_list: false },
        ),
        sel == 3 ==> run_lines(split_lines(ser_field("dyn_tsig_key_path"@, v) + rest), st)
            == run_lines(
            split_lines(rest),
            ParseState { m: ConfigModel { dyn_tsig_key_path: v, ..st.m }, in_list: false },
        ),
        sel == 4 ==> run_lines(split_lines(ser_field("dyn_enabled"@, v) + rest), st) == run_lines(
            split_lines(rest),
            ParseState { m: ConfigModel { dyn_enabled: v == "true"@, ..st.m }, in_list: false },
        ),
{
    reveal_strlit("external_domain");
    reveal_strlit("dyn_domain");
    reveal_strlit("dyn_dns_server_address");
    reveal_strlit("dyn_tsig_key_path");
    reveal_strlit("dyn_enabled");
    reveal_strlit("ssb_admin_ids");
    reveal_strlit(": ");
    reveal_strlit("\n");
    let key = if sel == 0 {
        "external_domain"@
    } else if sel == 1 {
        "dyn_domain"@
    } else if sel == 2 {
        "dyn_dns_server_address"@
    } else if sel == 3 {
        "dyn_tsig_key_path"@
    } else {
        "dyn_enabled"@
    };
    let x = key + ": "@ + v;
    assert(ser_field(key, v) + rest =~= x + seq!['\n'] + rest);
    lemma_field_line_nl_free(key, v);
    lemma_split_lines_prefix(x, rest);
    lemma_field_line_forms(key, v);
    assert(x[0] == key[0]);
    if sel >= 1 {
        assert(x[0] == 'd');
        lemma_key_value_mismatch(x, "external_domain"@, 0);
    }
    if sel == 2 {
        assert(x[5] == "dyn_dns_server_address"@[5]);
        lemma_key_value_mismatch(x, "dyn_domain"@, 5);
    }
    if sel == 3 {
        assert(x[4] == "dyn_tsig_key_path"@[4]);
        lemma_key_value_mismatch(x, "dyn_domain"@, 4);
        lemma_key_value_mismatch(x, "dyn_dns_server_address"@, 4);
    }
    if sel == 4 {
        assert(x[4] == "dyn_enabled"@[4]);
        lemma_key_value_mismatch(x, "dyn_domain"@, 4);
        lemma_key_value_mismatch(x, "dyn_dns_server_address"@, 4);
        lemma_key_value_mismatch(x, "dyn_tsig_key_path"@, 4);
    }
    let ls = seq![x] + split_lines(rest);
    assert(ls[0] == x);
    assert(ls.drop_first() =~= split_lines(rest));
}

/// Running the parser over the item lines of an open list appends the items.
#[verifier::rlimit(60)]
proof fn lemma_run_items(st: ParseState, items: Seq<Seq<char>>, rest: Seq<char>)
    requires
        st.in_list,
        forall|i: int| 0 <= i < items.len() ==> !(#[trigger] items[i]).contains('\n'),
    ensures
        run_lines(split_lines(ser_items(items) + rest), st) == run_lines(
            split_lines(rest),
            ParseState {
                m: ConfigModel { ssb_admin_ids: st.m.ssb_admin_ids + items, ..st.m },
                in_list: true,
            },
        ),
    decreases items.len(),
{
    reveal_strlit("- ");
    reveal_strlit("-");
    reveal_strlit("---");
    reveal_strlit("\n");
    if items.len() == 0 {
        assert(ser_items(items) + rest =~= rest);
        assert(st.m.ssb_admin_ids + items =~= st.m.ssb_admin_ids);
        assert(ParseState {
            m: ConfigModel { ssb_admin_ids: st.m.ssb_admin_ids + items, ..st.m },
            in_list: true,
        } =~= st);
    } else {
        let x = "- "@ + items[0];
        assert(ser_items(items) + rest =~= x + seq!['\n'] + (ser_items(items.drop_first())
            + rest));
        assert forall|k: int| 0 <= k < x.len() implies x[k] != '\n' by {
            if k < 2 {
                assert(x[k] == "- "@[k]);
            } else {
                assert(x[k] == items[0][k - 2]);
                if items[0][k - 2] == '\n' {
                    assert(items[0].contains('\n'));
                }
            }
        }
        lemma_split_lines_prefix(x, ser_items(items.drop_first()) + rest);
        assert(x[0] == '-');
        assert(x[1] == ' ');
        assert(x.len() >= 2);
        if x == "---"@ {
            assert(x[1] == '-');
            assert(false);
        }
        assert(!is_skip_line(x));
        assert(x.skip(2) =~= items[0]);
        assert(item_line(x) == Some(items[0]));
        let st2 = ParseState {
            m: ConfigModel { ssb_admin_ids: st.m.ssb_admin_ids.push(items[0]), ..st.m },
            in_list: true,
        };
        assert(parse_line(st, x) == Some(st2));
        let ls = seq![x] + split_lines(ser_items(items.drop_first()) + rest);
        assert(ls[0] == x);
        assert(ls.drop_first() =~= split_lines(ser_items(items.drop_first()) + rest));
        lemma_run_items(st2, items.drop_first(), rest);
        assert(st2.m.ssb_admin_ids + items.drop_first() =~= st.m.ssb_admin_ids + items);
        assert(ParseState {
            m: ConfigModel { ssb_admin_ids: st2.m.ssb_admin_ids + items.drop_first(), ..st2.m },
            in_list: true,
        } =~= ParseState {
            m: ConfigModel { ssb_admin_ids: st.m.ssb_admin_ids + items, ..st.m },
            in_list: true,
        });
    }
}

/// Running the parser over a whole list block replaces the admin-id list.
proof fn lemma_run_list_block(st: ParseState, items: Seq<Seq<char>>, rest: Seq<char>)
    requires
        forall|i: int| 0 <= i < items.len() ==> !(#[trigger] items[i]).contains('\n'),
    ensures
        run_lines(split_lines(ser_list(items) + rest), st) == run_lines(
            split_lines(rest),
            ParseState { m: ConfigModel { ssb_admin_ids: items, ..st.m }, in_list: true },
        ),
{
    reveal_strlit("external_domain");
    reveal_strlit("dyn_domain");
    reveal_strlit("dyn_dns_server_address");
    reveal_strlit("dyn_tsig_key_path");
    reveal_strlit("dyn_enabled");
    reveal_strlit("ssb_admin_ids");
    reveal_strlit(":\n");
    reveal_strlit("---");
    reveal_strlit("-");
    let key = "ssb_admin_ids"@;
    let x = key + seq![':'];
    assert(ser_list(items) + rest =~= x + seq!['\n'] + (ser_items(items) + rest));
    assert forall|k: int| 0 <= k < x.len() implies x[k] != '\n' by {
        if k < key.len() {
            assert(x[k] == key[k]);
        } else {
            assert(x[k] == ':');
        }
    }
    lemma_split_lines_prefix(x, ser_items(items) + rest);
    assert(x[0] == 's');
    if x == "---"@ {
        assert(false);
    }
    if x == "-"@ {
        assert(false);
    }
    assert(!is_skip_line(x));
    assert(item_line(x) is None);
    lemma_key_value_mismatch(x, "external_domain"@, 0);
    lemma_key_value_mismatch(x, "dyn_domain"@, 0);
    lemma_key_value_mismatch(x, "dyn_dns_server_address"@, 0);
    lemma_key_value_mismatch(x, "dyn_tsig_key_path"@, 0);
    lemma_key_value_mismatch(x, "dyn_enabled"@, 0);
    assert(x.take(key.len() as int) =~= key);
    assert(x[key.len() as int] == ':');
    assert(x.skip(key.len() as int + 1) =~= Seq::<char>::empty());
    assert(key_value(x, key) is Some);
    let st2 = ParseState {
        m: ConfigModel { ssb_admin_ids: Seq::empty(), ..st.m },
        in_list: true,
    };
    assert(parse_line(st, x) == Some(st2));
    let ls = seq![x] + split_lines(ser_items(items) + rest);
    assert(ls[0] == x);
    assert(ls.drop_first() =~= split_lines(ser_items(items) + rest));
    lemma_run_items(st2, items, rest);
    assert(st2.m.ssb_admin_ids + items =~= items);
    assert(ParseState {
        m: ConfigModel { ssb_admin_ids: st2.m.ssb_admin_ids + items, ..st2.m },
        in_list: true,
    } =~= ParseState { m: ConfigModel { ssb_admin_ids: items, ..st.m }, in_list: true });
}

/// The state after the external-domain block, if `inc` carries it.
spec fn upd_external_domain(m: ConfigModel, inc: FieldMask, st: ParseState) -> ParseState {
    if inc.external_domain {
        ParseState { m: ConfigModel { external_domain: m.external_domain, ..st.m }, in_list: false }
    } else {
        st
    }
}

/// The state after the dyn-domain block, if `inc` carries it.
spec fn upd_dyn_domain(m: ConfigModel, inc: FieldMask, st: ParseState) -> ParseState {
    if inc.dyn_domain {
        ParseState { m: ConfigModel { dyn_domain: m.dyn_domain, ..st.m }, in_list: false }
    } else {
        st
    }
}

/// The state after the server-address block, if `inc` carries it.
spec fn upd_dyn_dns_server_address(m: ConfigModel, inc: FieldMask, st: ParseState) -> ParseState {
    if inc.dyn_dns_server_address {
        ParseState {
            m: ConfigModel { dyn_dns_server_address: m.dyn_dns_server_address, ..st.m },
            in_list: false,
        }
    } else {
        st
    }
}

/// The state after the key-path block, if `inc` carries it.
spec fn upd_dyn_tsig_key_path(m: ConfigModel, inc: FieldMask, st: ParseState) -> ParseState {
    if inc.dyn_tsig_key_path {
        ParseState {
            m: ConfigModel { dyn_tsig_key_path: m.dyn_tsig_key_path, ..st.m },
            in_list: false,
        }
    } else {
        st
    }
}

/// The state after the enabled block, if `inc` carries it.
spec fn upd_dyn_enabled(m: ConfigModel, inc: FieldMask, st: ParseState) -> ParseState {
    if inc.dyn_enabled {
        ParseState { m: ConfigModel { dyn_enabled: m.dyn_enabled, ..st.m }, in_list: false }
    } else {
        st
    }
}

/// The state after the admin-id list block, if `inc` carries it.
spec fn upd_ssb_admin_ids(m: ConfigModel, inc: FieldMask, st: ParseState) -> ParseState {
    if inc.ssb_admin_ids {
        ParseState { m: ConfigModel { ssb_admin_ids: m.ssb_admin_ids, ..st.m }, in_list: true }
    } else {
        st
    }
}

/// The last two blocks of a document: the enabled field and the list.
spec fn tail_text(m: ConfigModel, inc: FieldMask) -> Seq<char> {
    (if inc.dyn_enabled {
        ser_field("dyn_enabled"@, bool_text(m.dyn_enabled))
    } else {
        Seq::empty()
    }) + (if inc.ssb_admin_ids {
        ser_list(m.ssb_admin_ids)
    } else {
        Seq::empty()
    })
}

/// The text of a boolean field is newline-free and means its boolean.
proof fn lemma_bool_text(b: bool)
    ensures
        !bool_text(b).contains('\n'),
        (bool_text(b) == "true"@) == b,
{
    reveal_strlit("true");
    reveal_strlit("false");
    if b {
        assert(!"true"@.contains('\n'));
    } else {
        assert(!"false"@.contains('\n'));
        assert("false"@.len() == 5);
        assert("true"@.len() == 4);
    }
}

/// Empty text is one blank line and leaves the parser state alone.
proof fn lemma_run_end(st: ParseState)
    ensures
        run_lines(split_lines(Seq::empty()), st) == Some(st),
{
    let e = Seq::<char>::empty();
    assert(first_nl(e) == 0);
    assert(split_lines(e) =~= seq![e]);
    assert(is_skip_line(e));
    assert(parse_line(st, e) == Some(st));
    assert(seq![e][0] == e);
    assert(seq![e].drop_first() =~= Seq::<Seq<char>>::empty());
    assert(run_lines(Seq::<Seq<char>>::empty(), st) == Some(st));
}

/// Running the parser over the last two blocks applies them both.
proof fn lemma_run_tail(m: ConfigModel, inc: FieldMask, st: ParseState)
    requires
        model_wf(m),
    ensures
        run_lines(split_lines(tail_text(m, inc)), st) == Some(
            upd_ssb_admin_ids(m, inc, upd_dyn_enabled(m, inc, st)),
        ),
{
    let e = Seq::<char>::empty();
    let b6 = if inc.ssb_admin_ids {
        ser_list(m.ssb_admin_ids)
    } else {
        e
    };
    let st5 = upd_dyn_enabled(m, inc, st);
    let st6 = upd_ssb_admin_ids(m, inc, st5);
    if inc.dyn_enabled {
        lemma_bool_text(m.dyn_enabled);
        lemma_run_field_block(st, 4, bool_text(m.dyn_enabled), b6);
        assert(ParseState {
            m: ConfigModel { dyn_enabled: bool_text(m.dyn_enabled) == "true"@, ..st.m },
            in_list: false,
        } =~= st5);
    } else {
        assert(tail_text(m, inc) =~= b6);
    }
    assert(run_lines(split_lines(tail_text(m, inc)), st) == run_lines(split_lines(b6), st5));
    if inc.ssb_admin_ids {
        lemma_run_list_block(st5, m.ssb_admin_ids, e);
        assert(b6 =~= ser_list(m.ssb_admin_ids) + e);
        lemma_run_end(st6);
    } else {
        lemma_run_end(st5);
    }
}

/// `ser_subset` reassociated for peeling blocks off the front.
proof fn lemma_subset_assoc(m: ConfigModel, inc: FieldMask)
    ensures
        ser_subset(m, inc) == (if inc.external_domain {
            ser_field("external_domain"@, m.external_domain)
        } else {
            Seq::empty()
        }) + ((if inc.dyn_domain {
            ser_field("dyn_domain"@, m.dyn_domain)
        } else {
            Seq::empty()
        }) + ((if inc.dyn_dns_server_address {
            ser_field("dyn_dns_server_address"@, m.dyn_dns_server_address)
        } else {
            Seq::empty()
        }) + ((if inc.dyn_tsig_key_path {
            ser_field("dyn_tsig_key_path"@, m.dyn_tsig_key_path)
        } else {
            Seq::empty()
        }) + tail_text(m, inc)))),
{
    let b1 = if inc.external_domain {
        ser_field("external_domain"@, m.external_domain)
    } else {
        Seq::<char>::empty()
    };
    let b2 = if inc.dyn_domain {
        ser_field("dyn_domain"@, m.dyn_domain)
    } else {
        Seq::<char>::empty()
    };
    let b3 = if inc.dyn_dns_server_address {
        ser_field("dyn_dns_server_address"@, m.dyn_dns_server_address)
    } else {
        Seq::<char>::empty()
    };
    let b4 = if inc.dyn_tsig_key_path {
        ser_field("dyn_tsig_key_path"@, m.dyn_tsig_key_path)
    } else {
        Seq::<char>::empty()
    };
    let b5 = if inc.dyn_enabled {
        ser_field("dyn_enabled"@, bool_text(m.dyn_enabled))
    } else {
        Seq::<char>::empty()
    };
    let b6 = if inc.ssb_admin_ids {
        ser_list(m.ssb_admin_ids)
    } else {
        Seq::<char>::empty()
    };
    assert(ser_subset(m, inc) == b1 + b2 + b3 + b4 + b5 + b6);
    assert(tail_text(m, inc) == b5 + b6);
    lemma_concat_assoc6(b1, b2, b3, b4, b5, b6);
}

/// Concatenation reassociates from the left to the right.
proof fn lemma_concat_assoc6(
    b1: Seq<char>,
    b2: Seq<char>,
    b3: Seq<char>,
    b4: Seq<char>,
    b5: Seq<char>,
    b6: Seq<char>,
)
    ensures
        b1 + b2 + b3 + b4 + b5 + b6 == b1 + (b2 + (b3 + (b4 + (b5 + b6)))),
{
    assert(b1 + b2 + b3 + b4 + b5 + b6 =~= b1 + (b2 + (b3 + (b4 + (b5 + b6)))));
}

/// The six updates applied in order produce the masked model.
proof fn lemma_upd_chain_masked(m: ConfigModel, inc: FieldMask)
    ensures
        upd_ssb_admin_ids(
            m,
            inc,
            upd_dyn_enabled(
                m,
                inc,
                upd_dyn_tsig_key_path(
                    m,
                    inc,
                    upd_dyn_dns_server_address(
                        m,
                        inc,
                        upd_dyn_domain(m, inc, upd_external_domain(m, inc, init_state())),
                    ),
                ),
            ),
        ).m == masked_model(m, inc),
{
    let st6 = upd_ssb_admin_ids(
        m,
        inc,
        upd_dyn_enabled(
            m,
            inc,
            upd_dyn_tsig_key_path(
                m,
                inc,
                upd_dyn_dns_server_address(
                    m,
                    inc,
                    upd_dyn_domain(m, inc, upd_external_domain(m, inc, init_state())),
                ),
            ),
        ),
    );
    assert(st6.m =~= masked_model(m, inc));
}

/// A document holding any subset of the fields parses, and every absent
/// field comes out at its default.
#[verifier::rlimit(100)]
pub proof fn lemma_load_partial_document(m: ConfigModel, inc: FieldMask)
    requires
        model_wf(m),
    ensures
        spec_parse(ser_subset(m, inc)) == Some(masked_model(m, inc)),
{
    let e = Seq::<char>::empty();
    let b1 = if inc.external_domain {
        ser_field("external_domain"@, m.external_domain)
    } else {
        e
    };
    let b2 = if inc.dyn_domain {
        ser_field("dyn_domain"@, m.dyn_domain)
    } else {
        e
    };
    let b3 = if inc.dyn_dns_server_address {
        ser_field("dyn_dns_server_address"@, m.dyn_dns_server_address)
    } else {
        e
    };
    let b4 = if inc.dyn_tsig_key_path {
        ser_field("dyn_tsig_key_path"@, m.dyn_tsig_key_path)
    } else {
        e
    };
    let t = tail_text(m, inc);
    let s4 = b4 + t;
    let s3 = b3 + s4;
    let s2 = b2 + s3;
    let s1 = b1 + s2;
    lemma_subset_assoc(m, inc);
    assert(ser_subset(m, inc) == s1);
    let st0 = init_state();
    let st1 = upd_external_domain(m, inc, st0);
    let st2 = upd_dyn_domain(m, inc, st1);
    let st3 = upd_dyn_dns_server_address(m, inc, st2);
    let st4 = upd_dyn_tsig_key_path(m, inc, st3);
    if inc.external_domain {
        lemma_run_field_block(st0, 0, m.external_domain, s2);
    } else {
        assert(s1 =~= s2);
    }
    assert(run_lines(split_lines(s1), st0) == run_lines(split_lines(s2), st1));
    if inc.dyn_domain {
        lemma_run_field_block(st1, 1, m.dyn_domain, s3);
    } else {
        assert(s2 =~= s3);
    }
    assert(run_lines(split_lines(s2), st1) == run_lines(split_lines(s3), st2));
    if inc.dyn_dns_server_address {
        lemma_run_field_block(st2, 2, m.dyn_dns_server_address, s4);
    } else {
        assert(s3 =~= s4);
    }
    assert(run_lines(split_lines(s3), st2) == run_lines(split_lines(s4), st3));
    if inc.dyn_tsig_key_path {
        lemma_run_field_block(st3, 3, m.dyn_tsig_key_path, t);
    } else {
        assert(s4 =~= t);
    }
    assert(run_lines(split_lines(s4), st3) == run_lines(split_lines(t), st4));
    lemma_run_tail(m, inc, st4);
    lemma_upd_chain_masked(m, inc);
}

/// Parsing a serialized document gives the document back.
pub proof fn lemma_config_round_trip(m: ConfigModel)
    requires
        model_wf(m),
    ensures
        spec_parse(spec_serialize(m)) == Some(m),
{
    lemma_load_partial_document(m, full_mask());
    assert(masked_model(m, full_mask()) =~= m);
}

} // verus!
