//! The structured-data documents that cross the control surface: JSON
//! escaping and building are verified against constructive specifications;
//! reading a document back goes through serde_json, whose values are opaque
//! here, so the extraction logic is verified for every value the parser can
//! hand back.

use vstd::prelude::*;
use vstd::string::*;
use crate::numfmt::dec_str;
use crate::numfmt::hex_char;
use crate::numfmt::u64_to_dec;
use crate::settings::AppSettings;
use crate::settings::HotkeyConfig;
use crate::settings::UiConfig;
use crate::settings::SettingsModel;
use crate::sys::push_char;

verus! {

/// How one character is written inside a JSON string literal.
pub open spec fn esc_char(c: char) -> Seq<char> {
    if c == '"' {
        seq!['\\', '"']
    } else if c == '\\' {
        seq!['\\', '\\']
    } else if c == '\n' {
        seq!['\\', 'n']
    } else if c == '\r' {
        seq!['\\', 'r']
    } else if c == '\t' {
        seq!['\\', 't']
    } else if (c as u32) < 32 {
        seq!['\\', 'u', '0', '0', hex_char((c as u32 / 16) as int), hex_char((c as u32 % 16) as int)]
    } else {
        seq![c]
    }
}

pub open spec fn json_escape(s: Seq<char>) -> Seq<char>
    decreases s.len(),
{
    if s.len() == 0 {
        Seq::<char>::empty()
    } else {
        json_escape(s.drop_last()) + esc_char(s.last())
    }
}

/// A JSON string literal: the escaped text between double quotes.
pub open spec fn json_str_lit(s: Seq<char>) -> Seq<char> {
    "\""@ + json_escape(s) + "\""@
}

pub open spec fn json_bool(b: bool) -> Seq<char> {
    if b {
        "true"@
    } else {
        "false"@
    }
}

/// Appends one escaped character.
fn push_escaped(out: &mut String, c: char)
    ensures
        final(out)@ == old(out)@ + esc_char(c),
{
    if c == '"' {
        out.append("\\\"");
        proof {
            reveal_strlit("\\\"");
            assert(out@ =~= old(out)@ + esc_char(c));
        }
    } else if c == '\\' {
        out.append("\\\\");
        proof {
            reveal_strlit("\\\\");
            assert(out@ =~= old(out)@ + esc_char(c));
        }
    } else if c == '\n' {
        out.append("\\n");
        proof {
            reveal_strlit("\\n");
            assert(out@ =~= old(out)@ + esc_char(c));
        }
    } else if c == '\r' {
        out.append("\\r");
        proof {
            reveal_strlit("\\r");
            assert(out@ =~= old(out)@ + esc_char(c));
        }
    } else if c == '\t' {
        out.append("\\t");
        proof {
            reveal_strlit("\\t");
            assert(out@ =~= old(out)@ + esc_char(c));
        }
    } else if (c as u32) < 32 {
        out.append("\\u00");
        push_char(out, crate::numfmt::hex_to_char((c as u32 / 16) as u64));
        push_char(out, crate::numfmt::hex_to_char((c as u32 % 16) as u64));
        proof {
            reveal_strlit("\\u00");
            assert(out@ =~= old(out)@ + esc_char(c));
        }
    } else {
        push_char(out, c);
        proof {
            assert(out@ =~= old(out)@ + esc_char(c));
        }
    }
}

/// Appends a JSON string literal holding `s`.
pub fn push_json_str(out: &mut String, s: &str)
    ensures
        final(out)@ == old(out)@ + json_str_lit(s@),
{
    let ghost base = out@;
    out.append("\"");
    let n = s.unicode_len();
    let mut i: usize = 0;
    while i < n
        invariant
            0 <= i <= n,
            n == s@.len(),
            out@ == base + "\""@ + json_escape(s@.take(i as int)),
        decreases n - i,
    {
        proof {
            assert(s@.take(i + 1).drop_last() =~= s@.take(i as int));
            assert(s@.take(i + 1).last() == s@[i as int]);
        }
        let c = s.get_char(i);
        push_escaped(out, c);
        proof {
            assert(out@ =~= base + "\""@ + json_escape(s@.take(i + 1)));
        }
        i = i + 1;
    }
    out.append("\"");
    proof {
        assert(s@.take(n as int) =~= s@);
        assert(out@ =~= base + json_str_lit(s@));
    }
}

/// Appends the canonical decimal of `n`.
pub fn push_u64(out: &mut String, n: u64)
    ensures
        final(out)@ == old(out)@ + dec_str(n as nat),
{
    let d = u64_to_dec(n);
    out.append(d.as_str());
}

/// The decimal rendering of a possibly negative whole-second timestamp.
pub open spec fn dec_str_i64(n: i64) -> Seq<char> {
    if n < 0 {
        "-"@ + dec_str((-(n as int)) as nat)
    } else {
        dec_str(n as nat)
    }
}

pub fn push_i64(out: &mut String, n: i64)
    ensures
        final(out)@ == old(out)@ + dec_str_i64(n),
{
    if n < 0 {
        out.append("-");
        let m: u64 = if n == i64::MIN {
            9223372036854775808u64
        } else {
            (-n) as u64
        };
        proof {
            assert(m as nat == (-(n as int)) as nat);
        }
        push_u64(out, m);
        proof {
            assert(out@ =~= old(out)@ + dec_str_i64(n));
        }
    } else {
        push_u64(out, n as u64);
    }
}

/// Appends `true` or `false`.
pub fn push_bool(out: &mut String, b: bool)
    ensures
        final(out)@ == old(out)@ + json_bool(b),
{
    if b {
        out.append("true");
    } else {
        out.append("false");
    }
}

// ---------------------------------------------------------------------------
// The settings document.
// ---------------------------------------------------------------------------

/// The settings serialized as one JSON object, fields in a fixed order.
pub open spec fn json_of_settings(s: SettingsModel) -> Seq<char> {
    "{\"max_items\":"@ + dec_str(s.max_items as nat) + ",\"keep_days\":"@ + dec_str(
        s.keep_days as nat,
    ) + ",\"max_image_size_mb\":"@ + dec_str(s.max_image_size_mb as nat) + ",\"compress_images\":"@
        + json_bool(s.compress_images) + ",\"save_text\":"@ + json_bool(s.save_text)
        + ",\"save_images\":"@ + json_bool(s.save_images) + ",\"save_files\":"@ + json_bool(
        s.save_files,
    ) + ",\"save_html\":"@ + json_bool(s.save_html) + ",\"auto_cleanup\":"@ + json_bool(
        s.auto_cleanup,
    ) + ",\"startup_delay_ms\":"@ + dec_str(s.startup_delay_ms as nat) + ",\"database_path\":"@
        + json_str_lit(s.database_path) + ",\"cache_path\":"@ + json_str_lit(s.cache_path)
        + ",\"hotkeys\":{\"show_window\":"@ + json_str_lit(s.hotkeys.show_window)
        + ",\"pin_item\":"@ + json_str_lit(s.hotkeys.pin_item) + ",\"search\":"@ + json_str_lit(
        s.hotkeys.search,
    ) + ",\"next_item\":"@ + json_str_lit(s.hotkeys.next_item) + ",\"prev_item\":"@ + json_str_lit(
        s.hotkeys.prev_item,
    ) + "},\"ui\":{\"theme\":"@ + json_str_lit(s.ui.theme) + ",\"opacity_percent\":"@ + dec_str(
        s.ui.opacity_percent as nat,
    ) + ",\"animation_speed\":"@ + dec_str(s.ui.animation_speed as nat) + ",\"show_preview\":"@
        + json_bool(s.ui.show_preview) + ",\"show_thumbnails\":"@ + json_bool(s.ui.show_thumbnails)
        + ",\"thumbnail_size\":"@ + dec_str(s.ui.thumbnail_size as nat) + ",\"font_size\":"@
        + dec_str(s.ui.font_size as nat) + "}}"@
}

/// Serializes the settings; the result is exactly `json_of_settings`.
pub fn settings_to_json(s: &AppSettings) -> (r: String)
    ensures
        r@ == json_of_settings(s@),
{
    let mut out = String::new();
    out.append("{\"max_items\":");
    push_u64(&mut out, s.max_items as u64);
    out.append(",\"keep_days\":");
    push_u64(&mut out, s.keep_days as u64);
    out.append(",\"max_image_size_mb\":");
    push_u64(&mut out, s.max_image_size_mb as u64);
    out.append(",\"compress_images\":");
    push_bool(&mut out, s.compress_images);
    out.append(",\"save_text\":");
    push_bool(&mut out, s.save_text);
    out.append(",\"save_images\":");
    push_bool(&mut out, s.save_images);
    out.append(",\"save_files\":");
    push_bool(&mut out, s.save_files);
    out.append(",\"save_html\":");
    push_bool(&mut out, s.save_html);
    out.append(",\"auto_cleanup\":");
    push_bool(&mut out, s.auto_cleanup);
    out.append(",\"startup_delay_ms\":");
    push_u64(&mut out, s.startup_delay_ms as u64);
    out.append(",\"database_path\":");
    push_json_str(&mut out, s.database_path.as_str());
    out.append(",\"cache_path\":");
    push_json_str(&mut out, s.cache_path.as_str());
    out.append(",\"hotkeys\":{\"show_window\":");
    push_json_str(&mut out, s.hotkeys.show_window.as_str());
    out.append(",\"pin_item\":");
    push_json_str(&mut out, s.hotkeys.pin_item.as_str());
    out.append(",\"search\":");
    push_json_str(&mut out, s.hotkeys.search.as_str());
    out.append(",\"next_item\":");
    push_json_str(&mut out, s.hotkeys.next_item.as_str());
    out.append(",\"prev_item\":");
    push_json_str(&mut out, s.hotkeys.prev_item.as_str());
    out.append("},\"ui\":{\"theme\":");
    push_json_str(&mut out, s.ui.theme.as_str());
    out.append(",\"opacity_percent\":");
    push_u64(&mut out, s.ui.opacity_percent as u64);
    out.append(",\"animation_speed\":");
    push_u64(&mut out, s.ui.animation_speed as u64);
    out.append(",\"show_preview\":");
    push_bool(&mut out, s.ui.show_preview);
    out.append(",\"show_thumbnails\":");
    push_bool(&mut out, s.ui.show_thumbnails);
    out.append(",\"thumbnail_size\":");
    push_u64(&mut out, s.ui.thumbnail_size as u64);
    out.append(",\"font_size\":");
    push_u64(&mut out, s.ui.font_size as u64);
    out.append("}}");
    proof {
        assert(out@ =~= json_of_settings(s@));
    }
    out
}

// ---------------------------------------------------------------------------
// Reading documents back through serde_json.
// ---------------------------------------------------------------------------

#[verifier::external_type_specification]
#[verifier::external_body]
pub struct ExValue(serde_json::Value);

/// Whether the text is a well-formed JSON document, as serde_json's
/// grammar (with its fixed recursion limit) accepts it — a function of the
/// text alone.
pub uninterp spec fn valid_json(s: Seq<char>) -> bool;

/// Whether the text is a well-formed JSON document whose top level is an
/// array — a function of the text alone.
pub uninterp spec fn json_doc_is_array(s: Seq<char>) -> bool;

/// A model of one parsed JSON node.  Numbers are modeled by what the two
/// integer accessors return on them, which is all this crate ever reads of
/// a number.
pub ghost enum JsonNode {
    Null,
    Bool(bool),
    Num { int_u64: Option<u64>, int_i64: Option<i64> },
    Str(Seq<char>),
    Arr(Seq<JsonNode>),
    Obj(Map<Seq<char>, JsonNode>),
}

/// The tree a parsed value holds.
pub uninterp spec fn tree_of(v: serde_json::Value) -> JsonNode;

/// The tree serde_json parses this text into; meaningful only when
/// `valid_json` holds of the text.  A function of the text alone.
pub uninterp spec fn parsed_tree(s: Seq<char>) -> JsonNode;

pub open spec fn node_get(t: JsonNode, key: Seq<char>) -> Option<JsonNode> {
    match t {
        JsonNode::Obj(m) => if m.contains_key(key) {
            Some(m[key])
        } else {
            None
        },
        _ => None,
    }
}

pub open spec fn node_u64(t: JsonNode) -> Option<u64> {
    match t {
        JsonNode::Num { int_u64, int_i64 } => int_u64,
        _ => None,
    }
}

pub open spec fn node_i64(t: JsonNode) -> Option<i64> {
    match t {
        JsonNode::Num { int_u64, int_i64 } => int_i64,
        _ => None,
    }
}

pub open spec fn node_bool(t: JsonNode) -> Option<bool> {
    match t {
        JsonNode::Bool(b) => Some(b),
        _ => None,
    }
}

pub open spec fn node_str(t: JsonNode) -> Option<Seq<char>> {
    match t {
        JsonNode::Str(s) => Some(s),
        _ => None,
    }
}

pub open spec fn node_arr(t: JsonNode) -> Option<Seq<JsonNode>> {
    match t {
        JsonNode::Arr(l) => Some(l),
        _ => None,
    }
}

/// Relies on `serde_json::from_str::<Value>`: parses a JSON document into
/// a tree, succeeding exactly on well-formed JSON; the tree returned is
/// the document's tree.
#[verifier::external_body]
pub(crate) fn parse_json(s: &str) -> (r: Option<serde_json::Value>)
    ensures
        r is Some <==> valid_json(s@),
        r matches Some(v) ==> tree_of(v) == parsed_tree(s@),
{
    serde_json::from_str(s).ok()
}

/// Relies on `serde_json::from_str::<Value>`: parses a JSON document and
/// hands out the elements of its top-level array, succeeding exactly when
/// the document is such an array; the elements carry the trees of the
/// document's rows, in order.
#[verifier::external_body]
pub(crate) fn parse_json_array(s: &str) -> (r: Option<Vec<serde_json::Value>>)
    ensures
        r is Some <==> json_doc_is_array(s@),
        r matches Some(rows) ==> valid_json(s@) && node_arr(parsed_tree(s@)) is Some
            && rows@.len() == node_arr(parsed_tree(s@))->0.len() && (forall|i: int|
            0 <= i < rows@.len() ==> tree_of(#[trigger] rows@[i]) == node_arr(
                parsed_tree(s@),
            )->0[i]),
{
    match serde_json::from_str::<serde_json::Value>(s) {
        Ok(serde_json::Value::Array(rows)) => Some(rows),
        _ => None,
    }
}

/// Relies on `serde_json::Value::get`: the value under this key, when the
/// node is an object that has it.
#[verifier::external_body]
pub(crate) fn json_get<'a>(v: &'a serde_json::Value, key: &str) -> (r: Option<
    &'a serde_json::Value,
>)
    ensures
        r is Some <==> node_get(tree_of(*v), key@) is Some,
        r matches Some(c) ==> node_get(tree_of(*v), key@) == Some(tree_of(*c)),
{
    v.get(key)
}

/// Relies on `serde_json::Value::as_u64`: the number as an unsigned 64-bit
/// integer, when the node is a number representable as one.
#[verifier::external_body]
pub(crate) fn json_u64(v: &serde_json::Value) -> (r: Option<u64>)
    ensures
        r == node_u64(tree_of(*v)),
{
    v.as_u64()
}

/// Relies on `serde_json::Value::as_i64`: the number as a signed 64-bit
/// integer, when the node is a number representable as one.
#[verifier::external_body]
pub(crate) fn json_i64(v: &serde_json::Value) -> (r: Option<i64>)
    ensures
        r == node_i64(tree_of(*v)),
{
    v.as_i64()
}

/// Relies on `serde_json::Value::as_bool`: the boolean, when the node is
/// one.
#[verifier::external_body]
pub(crate) fn json_bool_of(v: &serde_json::Value) -> (r: Option<bool>)
    ensures
        r == node_bool(tree_of(*v)),
{
    v.as_bool()
}

/// Relies on `serde_json::Value::as_str` and `str::to_owned`: the text,
/// when the node is a string.
#[verifier::external_body]
pub(crate) fn json_string(v: &serde_json::Value) -> (r: Option<String>)
    ensures
        r is Some <==> node_str(tree_of(*v)) is Some,
        r matches Some(x) ==> node_str(tree_of(*v)) == Some(x@),
{
    match v.as_str() {
        Some(s) => Some(s.to_owned()),
        None => None,
    }
}

/// Relies on `serde_json::Value::as_array`: the elements, when the node is
/// an array; they carry the trees of the node's elements in order.
#[verifier::external_body]
pub(crate) fn json_array(v: &serde_json::Value) -> (r: Option<&Vec<serde_json::Value>>)
    ensures
        r is Some <==> node_arr(tree_of(*v)) is Some,
        r matches Some(a) ==> a@.len() == node_arr(tree_of(*v))->0.len() && (forall|i: int|
            0 <= i < a@.len() ==> tree_of(#[trigger] a@[i]) == node_arr(tree_of(*v))->0[i]),
{
    v.as_array()
}

/// Relies on `serde_json::Value::is_null`: whether the node is `null`.
#[verifier::external_body]
pub(crate) fn json_is_null(v: &serde_json::Value) -> (r: bool)
    ensures
        r == (tree_of(*v) is Null),
{
    v.is_null()
}

pub open spec fn field_u32(t: JsonNode, key: Seq<char>) -> Option<u32> {
    match node_get(t, key) {
        Some(c) => match node_u64(c) {
            Some(n) => if n <= 0xFFFF_FFFFu64 {
                Some(n as u32)
            } else {
                None
            },
            None => None,
        },
        None => None,
    }
}

pub open spec fn field_u64(t: JsonNode, key: Seq<char>) -> Option<u64> {
    match node_get(t, key) {
        Some(c) => node_u64(c),
        None => None,
    }
}

pub open spec fn field_i64(t: JsonNode, key: Seq<char>) -> Option<i64> {
    match node_get(t, key) {
        Some(c) => node_i64(c),
        None => None,
    }
}

pub open spec fn field_bool(t: JsonNode, key: Seq<char>) -> Option<bool> {
    match node_get(t, key) {
        Some(c) => node_bool(c),
        None => None,
    }
}

pub open spec fn field_str(t: JsonNode, key: Seq<char>) -> Option<Seq<char>> {
    match node_get(t, key) {
        Some(c) => node_str(c),
        None => None,
    }
}

/// The number under `key`, required to fit in 32 bits.
pub(crate) fn get_u32(v: &serde_json::Value, key: &str) -> (r: Option<u32>)
    ensures
        r == field_u32(tree_of(*v), key@),
{
    let node = json_get(v, key)?;
    let n = json_u64(node)?;
    if n <= 0xFFFF_FFFFu64 {
        Some(n as u32)
    } else {
        None
    }
}

pub(crate) fn get_u64(v: &serde_json::Value, key: &str) -> (r: Option<u64>)
    ensures
        r == field_u64(tree_of(*v), key@),
{
    let node = json_get(v, key)?;
    json_u64(node)
}

pub(crate) fn get_i64(v: &serde_json::Value, key: &str) -> (r: Option<i64>)
    ensures
        r == field_i64(tree_of(*v), key@),
{
    let node = json_get(v, key)?;
    json_i64(node)
}

pub(crate) fn get_bool(v: &serde_json::Value, key: &str) -> (r: Option<bool>)
    ensures
        r == field_bool(tree_of(*v), key@),
{
    let node = json_get(v, key)?;
    json_bool_of(node)
}

pub(crate) fn get_string(v: &serde_json::Value, key: &str) -> (r: Option<String>)
    ensures
        r is Some <==> field_str(tree_of(*v), key@) is Some,
        r matches Some(x) ==> field_str(tree_of(*v), key@) == Some(x@),
{
    let node = json_get(v, key)?;
    json_string(node)
}

// ---------------------------------------------------------------------------
// What a settings document means: a total function of the parsed tree.
// ---------------------------------------------------------------------------

pub open spec fn hotkeys_fields_ok(t: JsonNode) -> bool {
    &&& field_str(t, "show_window"@) is Some
    &&& field_str(t, "pin_item"@) is Some
    &&& field_str(t, "search"@) is Some
    &&& field_str(t, "next_item"@) is Some
    &&& field_str(t, "prev_item"@) is Some
}

pub open spec fn hotkeys_of_node(o: Option<JsonNode>) -> Option<crate::settings::HotkeyModel> {
    match o {
        Some(t) => if hotkeys_fields_ok(t) {
            Some(
                crate::settings::HotkeyModel {
                    show_window: field_str(t, "show_window"@)->0,
                    pin_item: field_str(t, "pin_item"@)->0,
                    search: field_str(t, "search"@)->0,
                    next_item: field_str(t, "next_item"@)->0,
                    prev_item: field_str(t, "prev_item"@)->0,
                },
            )
        } else {
            None
        },
        None => None,
    }
}

pub open spec fn ui_fields_ok(t: JsonNode) -> bool {
    &&& field_str(t, "theme"@) is Some
    &&& field_u32(t, "opacity_percent"@) is Some
    &&& field_u32(t, "animation_speed"@) is Some
    &&& field_bool(t, "show_preview"@) is Some
    &&& field_bool(t, "show_thumbnails"@) is Some
    &&& field_u32(t, "thumbnail_size"@) is Some
    &&& field_u32(t, "font_size"@) is Some
}

pub open spec fn ui_of_node(o: Option<JsonNode>) -> Option<crate::settings::UiModel> {
    match o {
        Some(t) => if ui_fields_ok(t) {
            Some(
                crate::settings::UiModel {
                    theme: field_str(t, "theme"@)->0,
                    opacity_percent: field_u32(t, "opacity_percent"@)->0,
                    animation_speed: field_u32(t, "animation_speed"@)->0,
                    show_preview: field_bool(t, "show_preview"@)->0,
                    show_thumbnails: field_bool(t, "show_thumbnails"@)->0,
                    thumbnail_size: field_u32(t, "thumbnail_size"@)->0,
                    font_size: field_u32(t, "font_size"@)->0,
                },
            )
        } else {
            None
        },
        None => None,
    }
}

pub open spec fn settings_fields_ok(t: JsonNode) -> bool {
    &&& field_u32(t, "max_items"@) is Some
    &&& field_u32(t, "keep_days"@) is Some
    &&& field_u32(t, "max_image_size_mb"@) is Some
    &&& field_bool(t, "compress_images"@) is Some
    &&& field_bool(t, "save_text"@) is Some
    &&& field_bool(t, "save_images"@) is Some
    &&& field_bool(t, "save_files"@) is Some
    &&& field_bool(t, "save_html"@) is Some
    &&& field_bool(t, "auto_cleanup"@) is Some
    &&& field_u32(t, "startup_delay_ms"@) is Some
    &&& field_str(t, "database_path"@) is Some
    &&& field_str(t, "cache_path"@) is Some
    &&& hotkeys_of_node(node_get(t, "hotkeys"@)) is Some
    &&& ui_of_node(node_get(t, "ui"@)) is Some
}

pub open spec fn settings_of_tree(t: JsonNode) -> Option<SettingsModel> {
    if settings_fields_ok(t) {
        Some(
            SettingsModel {
                max_items: field_u32(t, "max_items"@)->0,
                keep_days: field_u32(t, "keep_days"@)->0,
                max_image_size_mb: field_u32(t, "max_image_size_mb"@)->0,
                compress_images: field_bool(t, "compress_images"@)->0,
                save_text: field_bool(t, "save_text"@)->0,
                save_images: field_bool(t, "save_images"@)->0,
                save_files: field_bool(t, "save_files"@)->0,
                save_html: field_bool(t, "save_html"@)->0,
                auto_cleanup: field_bool(t, "auto_cleanup"@)->0,
                startup_delay_ms: field_u32(t, "startup_delay_ms"@)->0,
                database_path: field_str(t, "database_path"@)->0,
                cache_path: field_str(t, "cache_path"@)->0,
                hotkeys: hotkeys_of_node(node_get(t, "hotkeys"@))->0,
                ui: ui_of_node(node_get(t, "ui"@))->0,
            },
        )
    } else {
        None
    }
}

/// The settings value a document deserializes to, if any: nothing unless
/// the text is well-formed JSON whose tree is a complete settings object.
pub open spec fn settings_of_doc(s: Seq<char>) -> Option<SettingsModel> {
    if valid_json(s) {
        settings_of_tree(parsed_tree(s))
    } else {
        None
    }
}

/// Reads a settings document: every field must be present with the right
/// type, as a deserialization-validated update demands; otherwise nothing
/// is returned and the caller keeps its prior settings.  The result is
/// exactly what the document deserializes to.
#[verifier::rlimit(60)]
pub fn settings_from_json(doc: &str) -> (r: Option<AppSettings>)
    ensures
        r is Some <==> settings_of_doc(doc@) is Some,
        r matches Some(s) ==> Some(s@) == settings_of_doc(doc@),
{
    let v = parse_json(doc)?;
    let max_items = get_u32(&v, "max_items")?;
    let keep_days = get_u32(&v, "keep_days")?;
    let max_image_size_mb = get_u32(&v, "max_image_size_mb")?;
    let compress_images = get_bool(&v, "compress_images")?;
    let save_text = get_bool(&v, "save_text")?;
    let save_images = get_bool(&v, "save_images")?;
    let save_files = get_bool(&v, "save_files")?;
    let save_html = get_bool(&v, "save_html")?;
    let auto_cleanup = get_bool(&v, "auto_cleanup")?;
    let startup_delay_ms = get_u32(&v, "startup_delay_ms")?;
    let database_path = get_string(&v, "database_path")?;
    let cache_path = get_string(&v, "cache_path")?;
    let hk = json_get(&v, "hotkeys")?;
    let show_window = get_string(hk, "show_window")?;
    let pin_item = get_string(hk, "pin_item")?;
    let search_key = get_string(hk, "search")?;
    let next_item = get_string(hk, "next_item")?;
    let prev_item = get_string(hk, "prev_item")?;
    let ui = json_get(&v, "ui")?;
    let theme = get_string(ui, "theme")?;
    let opacity_percent = get_u32(ui, "opacity_percent")?;
    let animation_speed = get_u32(ui, "animation_speed")?;
    let show_preview = get_bool(ui, "show_preview")?;
    let show_thumbnails = get_bool(ui, "show_thumbnails")?;
    let thumbnail_size = get_u32(ui, "thumbnail_size")?;
    let font_size = get_u32(ui, "font_size")?;
    Some(
        AppSettings {
            max_items,
            keep_days,
            max_image_size_mb,
            compress_images,
            save_text,
            save_images,
            save_files,
            save_html,
            auto_cleanup,
            startup_delay_ms,
            database_path,
            cache_path,
            hotkeys: HotkeyConfig { show_window, pin_item, search: search_key, next_item, prev_item },
            ui: UiConfig {
                theme,
                opacity_percent,
                animation_speed,
                show_preview,
                show_thumbnails,
                thumbnail_size,
                font_size,
            },
        },
    )
}

} // verus!
