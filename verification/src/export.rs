//! Import and export of the full entry set: a full-fidelity JSON mapping,
//! and lossy tabular, markup-document and plain-list mappings.  Every
//! serializer is verified against a constructive specification of its
//! format; import reads the JSON mapping back through serde_json and
//! re-applies the store's own save rule to every entry.

use vstd::prelude::*;
use vstd::string::*;
use crate::model::ClipboardItem;
use crate::model::ClipboardContent;
use crate::model::ContentModel;
use crate::model::ImageFormat;
use crate::model::ItemModel;
use crate::model::FileModel;
use crate::model::FileItem;
use crate::numfmt::dec_str;
use crate::numfmt::hex_pad;
use crate::json::dec_str_i64;
use crate::json::json_bool;
use crate::json::json_str_lit;
use crate::json::push_bool;
use crate::json::push_i64;
use crate::json::push_json_str;
use crate::json::push_u64;

verus! {

// ---------------------------------------------------------------------------
// The JSON mapping, full fidelity.
// ---------------------------------------------------------------------------

/// Byte values joined with commas.
pub open spec fn dec_list(b: Seq<u8>) -> Seq<char>
    decreases b.len(),
{
    if b.len() == 0 {
        Seq::<char>::empty()
    } else if b.len() == 1 {
        dec_str(b[0] as nat)
    } else {
        dec_list(b.drop_last()) + ","@ + dec_str(b.last() as nat)
    }
}

pub open spec fn json_bytes(b: Seq<u8>) -> Seq<char> {
    "["@ + dec_list(b) + "]"@
}

/// String literals joined with commas.
pub open spec fn str_list(t: Seq<Seq<char>>) -> Seq<char>
    decreases t.len(),
{
    if t.len() == 0 {
        Seq::<char>::empty()
    } else if t.len() == 1 {
        json_str_lit(t[0])
    } else {
        str_list(t.drop_last()) + ","@ + json_str_lit(t.last())
    }
}

pub open spec fn json_str_array(t: Seq<Seq<char>>) -> Seq<char> {
    "["@ + str_list(t) + "]"@
}

pub open spec fn json_of_file(f: FileModel) -> Seq<char> {
    "{\"path\":"@ + json_str_lit(f.path) + ",\"size\":"@ + dec_str(f.size as nat)
        + ",\"modified\":"@ + dec_str_i64(f.modified) + "}"@
}

pub open spec fn file_list(fs: Seq<FileModel>) -> Seq<char>
    decreases fs.len(),
{
    if fs.len() == 0 {
        Seq::<char>::empty()
    } else if fs.len() == 1 {
        json_of_file(fs[0])
    } else {
        file_list(fs.drop_last()) + ","@ + json_of_file(fs.last())
    }
}

pub open spec fn json_of_pair(p: (Seq<char>, Seq<char>)) -> Seq<char> {
    "["@ + json_str_lit(p.0) + ","@ + json_str_lit(p.1) + "]"@
}

pub open spec fn pair_list(md: Seq<(Seq<char>, Seq<char>)>) -> Seq<char>
    decreases md.len(),
{
    if md.len() == 0 {
        Seq::<char>::empty()
    } else if md.len() == 1 {
        json_of_pair(md[0])
    } else {
        pair_list(md.drop_last()) + ","@ + json_of_pair(md.last())
    }
}

pub open spec fn format_name(f: ImageFormat) -> Seq<char> {
    match f {
        ImageFormat::Png => "png"@,
        ImageFormat::Jpeg => "jpeg"@,
        ImageFormat::Bmp => "bmp"@,
        ImageFormat::Gif => "gif"@,
        ImageFormat::Unknown => "unknown"@,
    }
}

pub open spec fn json_of_content(c: ContentModel) -> Seq<char> {
    match c {
        ContentModel::Text(t) => "{\"type\":\"text\",\"data\":"@ + json_str_lit(t) + "}"@,
        ContentModel::Html(t) => "{\"type\":\"html\",\"data\":"@ + json_str_lit(t) + "}"@,
        ContentModel::RichText(t) => "{\"type\":\"richtext\",\"data\":"@ + json_str_lit(t) + "}"@,
        ContentModel::Image(img) => "{\"type\":\"image\",\"width\":"@ + dec_str(img.width as nat)
            + ",\"height\":"@ + dec_str(img.height as nat) + ",\"format\":"@ + json_str_lit(
            format_name(img.format),
        ) + ",\"data\":"@ + json_bytes(img.data) + ",\"thumbnail\":"@ + json_bytes(img.thumbnail)
            + "}"@,
        ContentModel::FileList(fs) => "{\"type\":\"file\",\"data\":"@ + "["@ + file_list(fs)
            + "]"@ + "}"@,
        ContentModel::Custom(n, d) => "{\"type\":\"custom\",\"name\":"@ + json_str_lit(n)
            + ",\"data\":"@ + json_bytes(d) + "}"@,
    }
}

pub open spec fn json_opt_str(o: Option<Seq<char>>) -> Seq<char> {
    match o {
        Some(s) => json_str_lit(s),
        None => "null"@,
    }
}

pub open spec fn json_opt_bytes(o: Option<Seq<u8>>) -> Seq<char> {
    match o {
        Some(b) => json_bytes(b),
        None => "null"@,
    }
}

pub open spec fn json_item_head(m: ItemModel) -> Seq<char> {
    "{\"id\":"@ + json_str_lit(hex_pad(m.id as nat, 32)) + ",\"timestamp\":"@ + dec_str_i64(
        m.timestamp,
    ) + ",\"content\":"@ + json_of_content(m.content) + ",\"tags\":"@ + json_str_array(m.tags)
        + ",\"favorite\":"@ + json_bool(m.favorite) + ",\"pinned\":"@ + json_bool(m.pinned)
}

pub open spec fn json_item_sources(m: ItemModel) -> Seq<char> {
    ",\"source_app\":"@ + json_opt_str(m.source_app) + ",\"source_window\":"@ + json_opt_str(
        m.source_window,
    ) + ",\"preview_text\":"@ + json_str_lit(m.preview_text)
}

pub open spec fn json_item_rest(m: ItemModel) -> Seq<char> {
    ",\"preview_image\":"@ + json_opt_bytes(m.preview_image) + ",\"metadata\":"@ + "["@
        + pair_list(m.metadata) + "]"@ + "}"@
}

pub open spec fn json_item_tail(m: ItemModel) -> Seq<char> {
    json_item_sources(m) + json_item_rest(m)
}

pub open spec fn json_of_item(m: ItemModel) -> Seq<char> {
    json_item_head(m) + json_item_tail(m)
}

pub open spec fn item_list(s: Seq<ItemModel>) -> Seq<char>
    decreases s.len(),
{
    if s.len() == 0 {
        Seq::<char>::empty()
    } else if s.len() == 1 {
        json_of_item(s[0])
    } else {
        item_list(s.drop_last()) + ","@ + json_of_item(s.last())
    }
}

/// The whole entry set as one JSON array, newest first.
pub open spec fn json_of_items(s: Seq<ItemModel>) -> Seq<char> {
    "["@ + item_list(s) + "]"@
}

fn push_bytes_json(out: &mut String, b: &Vec<u8>)
    ensures
        final(out)@ == old(out)@ + json_bytes(b@),
{
    let ghost base = out@;
    out.append("[");
    let mut i: usize = 0;
    while i < b.len()
        invariant
            0 <= i <= b@.len(),
            out@ == base + "["@ + dec_list(b@.take(i as int)),
        decreases b@.len() - i,
    {
        proof {
            assert(b@.take(i + 1).drop_last() =~= b@.take(i as int));
            assert(b@.take(i + 1).last() == b@[i as int]);
            if i == 0 {
                assert(b@.take(1)[0] == b@[0]);
            }
        }
        if i > 0 {
            out.append(",");
        }
        push_u64(out, b[i] as u64);
        proof {
            assert(out@ =~= base + "["@ + dec_list(b@.take(i + 1)));
        }
        i = i + 1;
    }
    out.append("]");
    proof {
        assert(b@.take(b@.len() as int) =~= b@);
        assert(out@ =~= base + json_bytes(b@));
    }
}

fn push_str_array(out: &mut String, t: &Vec<String>)
    ensures
        final(out)@ == old(out)@ + json_str_array(t.deep_view()),
{
    let ghost base = out@;
    let ghost tv = t.deep_view();
    out.append("[");
    let mut i: usize = 0;
    while i < t.len()
        invariant
            0 <= i <= t@.len(),
            tv == t.deep_view(),
            tv.len() == t@.len(),
            out@ == base + "["@ + str_list(tv.take(i as int)),
        decreases t@.len() - i,
    {
        proof {
            assert(tv[i as int] == t@[i as int].deep_view());
            assert(tv.take(i + 1).drop_last() =~= tv.take(i as int));
            assert(tv.take(i + 1).last() == tv[i as int]);
            if i == 0 {
                assert(tv.take(1)[0] == tv[0]);
            }
        }
        if i > 0 {
            out.append(",");
        }
        push_json_str(out, t[i].as_str());
        proof {
            assert(out@ =~= base + "["@ + str_list(tv.take(i + 1)));
        }
        i = i + 1;
    }
    out.append("]");
    proof {
        assert(tv.take(tv.len() as int) =~= tv);
        assert(out@ =~= base + json_str_array(tv));
    }
}

#[verifier::rlimit(100)]
fn push_files_json(out: &mut String, fs: &Vec<FileItem>)
    ensures
        final(out)@ == old(out)@ + "["@ + file_list(fs.deep_view()) + "]"@,
{
    let ghost base = out@;
    let ghost fv = fs.deep_view();
    out.append("[");
    let mut i: usize = 0;
    while i < fs.len()
        invariant
            0 <= i <= fs@.len(),
            fv == fs.deep_view(),
            fv.len() == fs@.len(),
            out@ == base + "["@ + file_list(fv.take(i as int)),
        decreases fs@.len() - i,
    {
        proof {
            assert(fv[i as int] == fs@[i as int].deep_view());
            assert(fv.take(i + 1).drop_last() =~= fv.take(i as int));
            assert(fv.take(i + 1).last() == fv[i as int]);
            if i == 0 {
                assert(fv.take(1)[0] == fv[0]);
            }
        }
        if i > 0 {
            out.append(",");
        }
        out.append("{\"path\":");
        push_json_str(out, fs[i].path.as_str());
        out.append(",\"size\":");
        push_u64(out, fs[i].size);
        out.append(",\"modified\":");
        push_i64(out, fs[i].modified);
        out.append("}");
        proof {
            assert(out@ =~= base + "["@ + file_list(fv.take(i + 1)));
        }
        i = i + 1;
    }
    out.append("]");
    proof {
        assert(fv.take(fv.len() as int) =~= fv);
        assert(out@ =~= base + "["@ + file_list(fv) + "]"@);
    }
}

fn push_pairs_json(out: &mut String, md: &Vec<(String, String)>)
    ensures
        final(out)@ == old(out)@ + "["@ + pair_list(md.deep_view()) + "]"@,
{
    let ghost base = out@;
    let ghost mv = md.deep_view();
    out.append("[");
    let mut i: usize = 0;
    while i < md.len()
        invariant
            0 <= i <= md@.len(),
            mv == md.deep_view(),
            mv.len() == md@.len(),
            out@ == base + "["@ + pair_list(mv.take(i as int)),
        decreases md@.len() - i,
    {
        proof {
            assert(mv[i as int] == md@[i as int].deep_view());
            assert(mv.take(i + 1).drop_last() =~= mv.take(i as int));
            assert(mv.take(i + 1).last() == mv[i as int]);
            if i == 0 {
                assert(mv.take(1)[0] == mv[0]);
            }
        }
        if i > 0 {
            out.append(",");
        }
        out.append("[");
        push_json_str(out, md[i].0.as_str());
        out.append(",");
        push_json_str(out, md[i].1.as_str());
        out.append("]");
        proof {
            assert(out@ =~= base + "["@ + pair_list(mv.take(i + 1)));
        }
        i = i + 1;
    }
    out.append("]");
    proof {
        assert(mv.take(mv.len() as int) =~= mv);
        assert(out@ =~= base + "["@ + pair_list(mv) + "]"@);
    }
}

#[verifier::rlimit(60)]
fn push_content_json(out: &mut String, c: &ClipboardContent)
    ensures
        final(out)@ == old(out)@ + json_of_content(c@),
{
    match c {
        ClipboardContent::Text(t) => {
            out.append("{\"type\":\"text\",\"data\":");
            push_json_str(out, t.as_str());
            out.append("}");
            proof {
                assert(out@ =~= old(out)@ + json_of_content(c@));
            }
        },
        ClipboardContent::Html(t) => {
            out.append("{\"type\":\"html\",\"data\":");
            push_json_str(out, t.as_str());
            out.append("}");
            proof {
                assert(out@ =~= old(out)@ + json_of_content(c@));
            }
        },
        ClipboardContent::RichText(t) => {
            out.append("{\"type\":\"richtext\",\"data\":");
            push_json_str(out, t.as_str());
            out.append("}");
            proof {
                assert(out@ =~= old(out)@ + json_of_content(c@));
            }
        },
        ClipboardContent::Image(img) => {
            out.append("{\"type\":\"image\",\"width\":");
            push_u64(out, img.width as u64);
            out.append(",\"height\":");
            push_u64(out, img.height as u64);
            out.append(",\"format\":");
            match img.format {
                ImageFormat::Png => out.append("\"png\""),
                ImageFormat::Jpeg => out.append("\"jpeg\""),
                ImageFormat::Bmp => out.append("\"bmp\""),
                ImageFormat::Gif => out.append("\"gif\""),
                ImageFormat::Unknown => out.append("\"unknown\""),
            }
            proof {
                reveal_strlit("\"png\"");
                reveal_strlit("\"jpeg\"");
                reveal_strlit("\"bmp\"");
                reveal_strlit("\"gif\"");
                reveal_strlit("\"unknown\"");
                reveal_strlit("png");
                reveal_strlit("jpeg");
                reveal_strlit("bmp");
                reveal_strlit("gif");
                reveal_strlit("unknown");
                reveal_strlit("\"");
                assert(json_str_lit(format_name(img@.format)) == "\""@ + crate::json::json_escape(
                    format_name(img@.format),
                ) + "\""@);
                lemma_escape_plain(format_name(img@.format));
            }
            out.append(",\"data\":");
            push_bytes_json(out, &img.data);
            out.append(",\"thumbnail\":");
            push_bytes_json(out, &img.thumbnail);
            out.append("}");
            proof {
                assert(out@ =~= old(out)@ + json_of_content(c@));
            }
        },
        ClipboardContent::FileList(fs) => {
            out.append("{\"type\":\"file\",\"data\":");
            push_files_json(out, fs);
            out.append("}");
            proof {
                assert(out@ =~= old(out)@ + json_of_content(c@));
            }
        },
        ClipboardContent::Custom(n, d) => {
            out.append("{\"type\":\"custom\",\"name\":");
            push_json_str(out, n.as_str());
            out.append(",\"data\":");
            push_bytes_json(out, d);
            out.append("}");
            proof {
                assert(out@ =~= old(out)@ + json_of_content(c@));
            }
        },
    }
}

/// Escaping text that holds no character needing an escape leaves it
/// unchanged; the image format names are such text.
pub proof fn lemma_escape_plain(s: Seq<char>)
    requires
        forall|i: int|
            0 <= i < s.len() ==> (#[trigger] s[i]) != '"' && s[i] != '\\' && (s[i] as u32) >= 32,
    ensures
        crate::json::json_escape(s) == s,
    decreases s.len(),
{
    if s.len() == 0 {
        assert(crate::json::json_escape(s) =~= s);
    } else {
        lemma_escape_plain(s.drop_last());
        assert(crate::json::esc_char(s.last()) == seq![s.last()]);
        assert(crate::json::json_escape(s) =~= s);
    }
}

#[verifier::rlimit(100)]
fn push_item_head(out: &mut String, it: &ClipboardItem)
    ensures
        final(out)@ == old(out)@ + json_item_head(it@),
{
    out.append("{\"id\":");
    let id_hex = crate::numfmt::id_to_hex32(it.id);
    push_json_str(out, id_hex.as_str());
    out.append(",\"timestamp\":");
    push_i64(out, it.timestamp);
    out.append(",\"content\":");
    push_content_json(out, &it.content);
    out.append(",\"tags\":");
    push_str_array(out, &it.tags);
    out.append(",\"favorite\":");
    push_bool(out, it.favorite);
    out.append(",\"pinned\":");
    push_bool(out, it.pinned);
    proof {
        assert(out@ =~= old(out)@ + json_item_head(it@));
    }
}

#[verifier::rlimit(100)]
fn push_item_sources(out: &mut String, it: &ClipboardItem)
    ensures
        final(out)@ == old(out)@ + json_item_sources(it@),
{
    out.append(",\"source_app\":");
    match &it.source_app {
        Some(s) => {
            proof {
                assert(it@.source_app == Some(s@));
            }
            push_json_str(out, s.as_str());
        },
        None => out.append("null"),
    }
    out.append(",\"source_window\":");
    match &it.source_window {
        Some(s) => {
            proof {
                assert(it@.source_window == Some(s@));
            }
            push_json_str(out, s.as_str());
        },
        None => out.append("null"),
    }
    out.append(",\"preview_text\":");
    push_json_str(out, it.preview_text.as_str());
    proof {
        assert(out@ =~= old(out)@ + json_item_sources(it@));
    }
}

#[verifier::rlimit(100)]
fn push_item_rest(out: &mut String, it: &ClipboardItem)
    ensures
        final(out)@ == old(out)@ + json_item_rest(it@),
{
    out.append(",\"preview_image\":");
    match &it.preview_image {
        Some(b) => {
            proof {
                assert(it@.preview_image == Some(b@));
            }
            push_bytes_json(out, b);
        },
        None => out.append("null"),
    }
    out.append(",\"metadata\":");
    push_pairs_json(out, &it.metadata);
    out.append("}");
    proof {
        assert(out@ =~= old(out)@ + json_item_rest(it@));
    }
}

fn push_item_tail(out: &mut String, it: &ClipboardItem)
    ensures
        final(out)@ == old(out)@ + json_item_tail(it@),
{
    push_item_sources(out, it);
    push_item_rest(out, it);
    proof {
        assert(out@ =~= old(out)@ + json_item_tail(it@));
    }
}

fn push_item_json(out: &mut String, it: &ClipboardItem)
    ensures
        final(out)@ == old(out)@ + json_of_item(it@),
{
    push_item_head(out, it);
    push_item_tail(out, it);
    proof {
        assert(out@ =~= old(out)@ + json_of_item(it@));
    }
}

/// Serializes the full entry set in the given order as one JSON array.
#[verifier::rlimit(60)]
pub fn items_to_json(items: &Vec<ClipboardItem>) -> (r: String)
    ensures
        r@ == json_of_items(items.deep_view()),
{
    let ghost sv = items.deep_view();
    let mut out = String::new();
    out.append("[");
    let mut i: usize = 0;
    while i < items.len()
        invariant
            0 <= i <= items@.len(),
            sv == items.deep_view(),
            sv.len() == items@.len(),
            out@ == "["@ + item_list(sv.take(i as int)),
        decreases items@.len() - i,
    {
        proof {
            assert(sv[i as int] == items@[i as int].deep_view());
            assert(sv.take(i + 1).drop_last() =~= sv.take(i as int));
            assert(sv.take(i + 1).last() == sv[i as int]);
            if i == 0 {
                assert(sv.take(1)[0] == sv[0]);
            }
        }
        if i > 0 {
            out.append(",");
        }
        push_item_json(&mut out, &items[i]);
        proof {
            assert(out@ =~= "["@ + item_list(sv.take(i + 1)));
        }
        i = i + 1;
    }
    out.append("]");
    proof {
        assert(sv.take(sv.len() as int) =~= sv);
        assert(out@ =~= json_of_items(sv));
    }
    out
}

} // verus!

verus! {

// ---------------------------------------------------------------------------
// The lossy mappings: tabular, plain list, markup document.
// ---------------------------------------------------------------------------

pub open spec fn kind_label(ct: crate::model::ContentType) -> Seq<char> {
    match ct {
        crate::model::ContentType::Text => "text"@,
        crate::model::ContentType::Image => "image"@,
        crate::model::ContentType::File => "file"@,
        crate::model::ContentType::Html => "html"@,
        crate::model::ContentType::RichText => "richtext"@,
        crate::model::ContentType::Custom => "custom"@,
    }
}

fn push_kind_label(out: &mut String, c: &ClipboardContent)
    ensures
        final(out)@ == old(out)@ + kind_label(crate::model::content_type_of(c@)),
{
    match crate::model::content_type_exec(c) {
        crate::model::ContentType::Text => out.append("text"),
        crate::model::ContentType::Image => out.append("image"),
        crate::model::ContentType::File => out.append("file"),
        crate::model::ContentType::Html => out.append("html"),
        crate::model::ContentType::RichText => out.append("richtext"),
        crate::model::ContentType::Custom => out.append("custom"),
    }
}

/// A double quote inside a quoted tabular field is doubled.
pub open spec fn csv_esc(s: Seq<char>) -> Seq<char>
    decreases s.len(),
{
    if s.len() == 0 {
        Seq::<char>::empty()
    } else {
        csv_esc(s.drop_last()) + (if s.last() == '"' {
            seq!['"', '"']
        } else {
            seq![s.last()]
        })
    }
}

pub open spec fn csv_quoted(s: Seq<char>) -> Seq<char> {
    "\""@ + csv_esc(s) + "\""@
}

pub open spec fn csv_line(m: ItemModel) -> Seq<char> {
    hex_pad(m.id as nat, 32) + ","@ + kind_label(crate::model::content_type_of(m.content)) + ","@
        + dec_str_i64(m.timestamp) + ","@ + json_bool(m.favorite) + ","@ + json_bool(m.pinned)
        + ","@ + csv_quoted(m.preview_text) + "\n"@
}

pub open spec fn csv_lines(s: Seq<ItemModel>) -> Seq<char>
    decreases s.len(),
{
    if s.len() == 0 {
        Seq::<char>::empty()
    } else {
        csv_lines(s.drop_last()) + csv_line(s.last())
    }
}

/// The tabular mapping: a header line, then one line per entry.  Binary
/// content is represented only by its type and preview.
pub open spec fn csv_of_items(s: Seq<ItemModel>) -> Seq<char> {
    "id,type,timestamp,favorite,pinned,preview\n"@ + csv_lines(s)
}

fn push_csv_quoted(out: &mut String, s: &str)
    ensures
        final(out)@ == old(out)@ + csv_quoted(s@),
{
    let ghost base = out@;
    out.append("\"");
    let n = s.unicode_len();
    let mut i: usize = 0;
    while i < n
        invariant
            0 <= i <= n,
            n == s@.len(),
            out@ == base + "\""@ + csv_esc(s@.take(i as int)),
        decreases n - i,
    {
        proof {
            assert(s@.take(i + 1).drop_last() =~= s@.take(i as int));
            assert(s@.take(i + 1).last() == s@[i as int]);
        }
        let c = s.get_char(i);
        if c == '"' {
            crate::sys::push_char(out, '"');
            crate::sys::push_char(out, '"');
        } else {
            crate::sys::push_char(out, c);
        }
        proof {
            assert(out@ =~= base + "\""@ + csv_esc(s@.take(i + 1)));
        }
        i = i + 1;
    }
    out.append("\"");
    proof {
        assert(s@.take(n as int) =~= s@);
        assert(out@ =~= base + csv_quoted(s@));
    }
}

#[verifier::rlimit(60)]
fn push_csv_line(out: &mut String, it: &ClipboardItem)
    ensures
        final(out)@ == old(out)@ + csv_line(it@),
{
    let id_hex = crate::numfmt::id_to_hex32(it.id);
    out.append(id_hex.as_str());
    out.append(",");
    push_kind_label(out, &it.content);
    out.append(",");
    push_i64(out, it.timestamp);
    out.append(",");
    push_bool(out, it.favorite);
    out.append(",");
    push_bool(out, it.pinned);
    out.append(",");
    push_csv_quoted(out, it.preview_text.as_str());
    out.append("\n");
    proof {
        assert(out@ =~= old(out)@ + csv_line(it@));
    }
}

pub fn items_to_csv(items: &Vec<ClipboardItem>) -> (r: String)
    ensures
        r@ == csv_of_items(items.deep_view()),
{
    let ghost sv = items.deep_view();
    let mut out = String::new();
    out.append("id,type,timestamp,favorite,pinned,preview\n");
    let ghost base = out@;
    let mut i: usize = 0;
    while i < items.len()
        invariant
            0 <= i <= items@.len(),
            sv == items.deep_view(),
            sv.len() == items@.len(),
            out@ == base + csv_lines(sv.take(i as int)),
        decreases items@.len() - i,
    {
        proof {
            assert(sv[i as int] == items@[i as int].deep_view());
            assert(sv.take(i + 1).drop_last() =~= sv.take(i as int));
            assert(sv.take(i + 1).last() == sv[i as int]);
        }
        push_csv_line(&mut out, &items[i]);
        proof {
            assert(out@ =~= base + csv_lines(sv.take(i + 1)));
        }
        i = i + 1;
    }
    proof {
        assert(sv.take(sv.len() as int) =~= sv);
        assert(out@ =~= csv_of_items(sv));
    }
    out
}

pub open spec fn md_line(m: ItemModel) -> Seq<char> {
    "- ["@ + kind_label(crate::model::content_type_of(m.content)) + "] "@ + m.preview_text + "\n"@
}

pub open spec fn md_lines(s: Seq<ItemModel>) -> Seq<char>
    decreases s.len(),
{
    if s.len() == 0 {
        Seq::<char>::empty()
    } else {
        md_lines(s.drop_last()) + md_line(s.last())
    }
}

/// The plain-document mapping: a heading, then one list line per entry
/// holding its type and preview text.
pub open spec fn md_of_items(s: Seq<ItemModel>) -> Seq<char> {
    "# Clipboard Export\n\n"@ + md_lines(s)
}

pub fn items_to_markdown(items: &Vec<ClipboardItem>) -> (r: String)
    ensures
        r@ == md_of_items(items.deep_view()),
{
    let ghost sv = items.deep_view();
    let mut out = String::new();
    out.append("# Clipboard Export\n\n");
    let ghost base = out@;
    let mut i: usize = 0;
    while i < items.len()
        invariant
            0 <= i <= items@.len(),
            sv == items.deep_view(),
            sv.len() == items@.len(),
            out@ == base + md_lines(sv.take(i as int)),
        decreases items@.len() - i,
    {
        proof {
            assert(sv[i as int] == items@[i as int].deep_view());
            assert(sv.take(i + 1).drop_last() =~= sv.take(i as int));
            assert(sv.take(i + 1).last() == sv[i as int]);
        }
        out.append("- [");
        push_kind_label(&mut out, &items[i].content);
        out.append("] ");
        out.append(items[i].preview_text.as_str());
        out.append("\n");
        proof {
            assert(out@ =~= base + md_lines(sv.take(i + 1)));
        }
        i = i + 1;
    }
    proof {
        assert(sv.take(sv.len() as int) =~= sv);
        assert(out@ =~= md_of_items(sv));
    }
    out
}

pub open spec fn html_esc_char(c: char) -> Seq<char> {
    if c == '&' {
        "&amp;"@
    } else if c == '<' {
        "&lt;"@
    } else if c == '>' {
        "&gt;"@
    } else {
        seq![c]
    }
}

pub open spec fn html_escape(s: Seq<char>) -> Seq<char>
    decreases s.len(),
{
    if s.len() == 0 {
        Seq::<char>::empty()
    } else {
        html_escape(s.drop_last()) + html_esc_char(s.last())
    }
}

pub open spec fn html_line(m: ItemModel) -> Seq<char> {
    "<li>["@ + kind_label(crate::model::content_type_of(m.content)) + "] "@ + html_escape(
        m.preview_text,
    ) + "</li>\n"@
}

pub open spec fn html_lines(s: Seq<ItemModel>) -> Seq<char>
    decreases s.len(),
{
    if s.len() == 0 {
        Seq::<char>::empty()
    } else {
        html_lines(s.drop_last()) + html_line(s.last())
    }
}

/// The markup-document mapping: one escaped list line per entry.
pub open spec fn html_of_items(s: Seq<ItemModel>) -> Seq<char> {
    "<!DOCTYPE html>\n<html><body><ul>\n"@ + html_lines(s) + "</ul></body></html>\n"@
}

fn push_html_escaped(out: &mut String, s: &str)
    ensures
        final(out)@ == old(out)@ + html_escape(s@),
{
    let ghost base = out@;
    let n = s.unicode_len();
    let mut i: usize = 0;
    while i < n
        invariant
            0 <= i <= n,
            n == s@.len(),
            out@ == base + html_escape(s@.take(i as int)),
        decreases n - i,
    {
        proof {
            assert(s@.take(i + 1).drop_last() =~= s@.take(i as int));
            assert(s@.take(i + 1).last() == s@[i as int]);
        }
        let c = s.get_char(i);
        if c == '&' {
            out.append("&amp;");
        } else if c == '<' {
            out.append("&lt;");
        } else if c == '>' {
            out.append("&gt;");
        } else {
            crate::sys::push_char(out, c);
        }
        proof {
            assert(out@ =~= base + html_escape(s@.take(i + 1)));
        }
        i = i + 1;
    }
    proof {
        assert(s@.take(n as int) =~= s@);
    }
}

pub fn items_to_html(items: &Vec<ClipboardItem>) -> (r: String)
    ensures
        r@ == html_of_items(items.deep_view()),
{
    let ghost sv = items.deep_view();
    let mut out = String::new();
    out.append("<!DOCTYPE html>\n<html><body><ul>\n");
    let ghost base = out@;
    let mut i: usize = 0;
    while i < items.len()
        invariant
            0 <= i <= items@.len(),
            sv == items.deep_view(),
            sv.len() == items@.len(),
            out@ == base + html_lines(sv.take(i as int)),
        decreases items@.len() - i,
    {
        proof {
            assert(sv[i as int] == items@[i as int].deep_view());
            assert(sv.take(i + 1).drop_last() =~= sv.take(i as int));
            assert(sv.take(i + 1).last() == sv[i as int]);
        }
        out.append("<li>[");
        push_kind_label(&mut out, &items[i].content);
        out.append("] ");
        push_html_escaped(&mut out, items[i].preview_text.as_str());
        out.append("</li>\n");
        proof {
            assert(out@ =~= base + html_lines(sv.take(i + 1)));
        }
        i = i + 1;
    }
    out.append("</ul></body></html>\n");
    proof {
        assert(sv.take(sv.len() as int) =~= sv);
        assert(out@ =~= html_of_items(sv));
    }
    out
}

} // verus!

// ---------------------------------------------------------------------------
// Import: reading the JSON mapping back.  Every reader below is specified
// against the model of the parsed tree, so what comes back is exactly what
// the document deserializes to; only the identifier drawn for a row that
// lacks one is left existential.
// ---------------------------------------------------------------------------

use crate::json::JsonNode;
use crate::json::field_i64;
use crate::json::field_str;
use crate::json::field_u32;
use crate::json::field_u64;
use crate::json::node_arr;
use crate::json::node_bool;
use crate::json::node_get;
use crate::json::node_i64;
use crate::json::node_str;
use crate::json::node_u64;
use crate::json::parsed_tree;
use crate::json::tree_of;

verus! {

pub open spec fn bytes_from_list(acc: Seq<u8>, l: Seq<JsonNode>) -> Option<Seq<u8>>
    decreases l.len(),
{
    if l.len() == 0 {
        Some(acc)
    } else {
        match node_u64(l[0]) {
            Some(n) => if n <= 255 {
                bytes_from_list(acc.push(n as u8), l.drop_first())
            } else {
                None
            },
            None => None,
        }
    }
}

/// The byte array a node holds: an array of numbers, each at most 255.
pub open spec fn bytes_of_node(t: JsonNode) -> Option<Seq<u8>> {
    match node_arr(t) {
        Some(l) => bytes_from_list(Seq::<u8>::empty(), l),
        None => None,
    }
}

fn get_byte_vec(v: &serde_json::Value) -> (r: Option<Vec<u8>>)
    ensures
        match r {
            Some(b) => bytes_of_node(tree_of(*v)) == Some(b@),
            None => bytes_of_node(tree_of(*v)) is None,
        },
{
    let arr = crate::json::json_array(v)?;
    let ghost l = node_arr(tree_of(*v))->0;
    let mut out: Vec<u8> = Vec::new();
    let mut i: usize = 0;
    proof {
        assert(l.skip(0) =~= l);
    }
    while i < arr.len()
        invariant
            0 <= i <= arr@.len(),
            arr@.len() == l.len(),
            forall|j: int| 0 <= j < l.len() ==> tree_of(#[trigger] arr@[j]) == l[j],
            bytes_of_node(tree_of(*v)) == bytes_from_list(out@, l.skip(i as int)),
        decreases arr@.len() - i,
    {
        proof {
            assert(l.skip(i as int)[0] == l[i as int]);
            assert(l.skip(i as int).drop_first() =~= l.skip(i + 1));
        }
        let n = match crate::json::json_u64(&arr[i]) {
            Some(n) => n,
            None => {
                return None;
            },
        };
        if n > 255 {
            return None;
        }
        out.push(n as u8);
        i = i + 1;
    }
    proof {
        assert(l.skip(l.len() as int) =~= Seq::<JsonNode>::empty());
    }
    Some(out)
}

pub open spec fn tags_from_list(acc: Seq<Seq<char>>, l: Seq<JsonNode>) -> Option<Seq<Seq<char>>>
    decreases l.len(),
{
    if l.len() == 0 {
        Some(acc)
    } else {
        match node_str(l[0]) {
            Some(s) => tags_from_list(
                if acc.contains(s) {
                    acc
                } else {
                    acc.push(s)
                },
                l.drop_first(),
            ),
            None => None,
        }
    }
}

/// The tag list a node holds: an array of strings, duplicates dropped.
pub open spec fn tags_of_node(t: JsonNode) -> Option<Seq<Seq<char>>> {
    match node_arr(t) {
        Some(l) => tags_from_list(Seq::<Seq<char>>::empty(), l),
        None => None,
    }
}

/// Reads a tag array, dropping duplicates so the entry stays well-formed.
fn parse_tags(v: &serde_json::Value) -> (r: Option<Vec<String>>)
    ensures
        match r {
            Some(ts) => tags_of_node(tree_of(*v)) == Some(ts.deep_view())
                && crate::model::no_dup_strings(ts.deep_view()),
            None => tags_of_node(tree_of(*v)) is None,
        },
{
    let arr = crate::json::json_array(v)?;
    let ghost l = node_arr(tree_of(*v))->0;
    let mut out: Vec<String> = Vec::new();
    let mut i: usize = 0;
    proof {
        assert(l.skip(0) =~= l);
        assert(out.deep_view() =~= Seq::<Seq<char>>::empty());
    }
    while i < arr.len()
        invariant
            0 <= i <= arr@.len(),
            arr@.len() == l.len(),
            forall|j: int| 0 <= j < l.len() ==> tree_of(#[trigger] arr@[j]) == l[j],
            tags_of_node(tree_of(*v)) == tags_from_list(out.deep_view(), l.skip(i as int)),
            crate::model::no_dup_strings(out.deep_view()),
        decreases arr@.len() - i,
    {
        proof {
            assert(l.skip(i as int)[0] == l[i as int]);
            assert(l.skip(i as int).drop_first() =~= l.skip(i + 1));
        }
        let s = match crate::json::json_string(&arr[i]) {
            Some(s) => s,
            None => {
                return None;
            },
        };
        if !crate::store::contains_string(&out, &s) {
            let ghost prev = out.deep_view();
            out.push(s);
            proof {
                assert(out.deep_view() =~= prev.push(out@[prev.len() as int].deep_view()));
                assert(crate::model::no_dup_strings(out.deep_view()));
            }
        }
        i = i + 1;
    }
    proof {
        assert(l.skip(l.len() as int) =~= Seq::<JsonNode>::empty());
    }
    Some(out)
}

pub open spec fn has_key(acc: Seq<(Seq<char>, Seq<char>)>, k: Seq<char>) -> bool {
    exists|i: int| 0 <= i < acc.len() && (#[trigger] acc[i]).0 == k
}

/// A metadata row: an array of exactly one key and one value, both
/// strings.
pub open spec fn pair_of_node(t: JsonNode) -> Option<(Seq<char>, Seq<char>)> {
    match node_arr(t) {
        Some(l) => if l.len() == 2 {
            match (node_str(l[0]), node_str(l[1])) {
                (Some(k), Some(w)) => Some((k, w)),
                _ => None,
            }
        } else {
            None
        },
        None => None,
    }
}

pub open spec fn md_from_list(
    acc: Seq<(Seq<char>, Seq<char>)>,
    l: Seq<JsonNode>,
) -> Option<Seq<(Seq<char>, Seq<char>)>>
    decreases l.len(),
{
    if l.len() == 0 {
        Some(acc)
    } else {
        match pair_of_node(l[0]) {
            Some(p) => md_from_list(
                if has_key(acc, p.0) {
                    acc
                } else {
                    acc.push(p)
                },
                l.drop_first(),
            ),
            None => None,
        }
    }
}

/// The metadata a node holds: key/value rows, first value per key kept.
pub open spec fn md_of_node(t: JsonNode) -> Option<Seq<(Seq<char>, Seq<char>)>> {
    match node_arr(t) {
        Some(l) => md_from_list(Seq::<(Seq<char>, Seq<char>)>::empty(), l),
        None => None,
    }
}

fn pairs_contain_key(v: &Vec<(String, String)>, k: &String) -> (r: bool)
    ensures
        r == has_key(v.deep_view(), k@),
{
    let mut i: usize = 0;
    while i < v.len()
        invariant
            0 <= i <= v@.len(),
            v.deep_view().len() == v@.len(),
            forall|j: int| 0 <= j < i ==> (#[trigger] v.deep_view()[j]).0 != k@,
        decreases v@.len() - i,
    {
        proof {
            assert(v.deep_view()[i as int] == v@[i as int].deep_view());
        }
        if v[i].0 == *k {
            proof {
                assert((v.deep_view()[i as int]).0 == k@);
            }
            return true;
        }
        i = i + 1;
    }
    false
}

/// Reads a metadata array, keeping the first value for each key so that
/// keys stay unique.
fn parse_metadata(v: &serde_json::Value) -> (r: Option<Vec<(String, String)>>)
    ensures
        match r {
            Some(md) => md_of_node(tree_of(*v)) == Some(md.deep_view())
                && crate::model::unique_keys(md.deep_view()),
            None => md_of_node(tree_of(*v)) is None,
        },
{
    let arr = crate::json::json_array(v)?;
    let ghost l = node_arr(tree_of(*v))->0;
    let mut out: Vec<(String, String)> = Vec::new();
    let mut i: usize = 0;
    proof {
        assert(l.skip(0) =~= l);
        assert(out.deep_view() =~= Seq::<(Seq<char>, Seq<char>)>::empty());
    }
    while i < arr.len()
        invariant
            0 <= i <= arr@.len(),
            arr@.len() == l.len(),
            forall|j: int| 0 <= j < l.len() ==> tree_of(#[trigger] arr@[j]) == l[j],
            md_of_node(tree_of(*v)) == md_from_list(out.deep_view(), l.skip(i as int)),
            crate::model::unique_keys(out.deep_view()),
        decreases arr@.len() - i,
    {
        proof {
            assert(l.skip(i as int)[0] == l[i as int]);
            assert(l.skip(i as int).drop_first() =~= l.skip(i + 1));
        }
        let pair = match crate::json::json_array(&arr[i]) {
            Some(p) => p,
            None => {
                return None;
            },
        };
        if pair.len() != 2 {
            return None;
        }
        let ghost pl = node_arr(tree_of(arr@[i as int]))->0;
        let k = match crate::json::json_string(&pair[0]) {
            Some(s) => s,
            None => {
                return None;
            },
        };
        let val = match crate::json::json_string(&pair[1]) {
            Some(s) => s,
            None => {
                return None;
            },
        };
        proof {
            assert(pair_of_node(l[i as int]) == Some((k@, val@)));
        }
        if !pairs_contain_key(&out, &k) {
            let ghost prev = out.deep_view();
            out.push((k, val));
            proof {
                assert(out.deep_view() =~= prev.push(out@[prev.len() as int].deep_view()));
                assert(crate::model::unique_keys(out.deep_view()));
            }
        }
        i = i + 1;
    }
    proof {
        assert(l.skip(l.len() as int) =~= Seq::<JsonNode>::empty());
    }
    Some(out)
}

/// One file row: a path, a size and a modification time.
pub open spec fn file_of_node(t: JsonNode) -> Option<FileModel> {
    if field_str(t, "path"@) is Some && field_u64(t, "size"@) is Some && field_i64(
        t,
        "modified"@,
    ) is Some {
        Some(
            FileModel {
                path: field_str(t, "path"@)->0,
                size: field_u64(t, "size"@)->0,
                modified: field_i64(t, "modified"@)->0,
            },
        )
    } else {
        None
    }
}

pub open spec fn files_from_list(acc: Seq<FileModel>, l: Seq<JsonNode>) -> Option<Seq<FileModel>>
    decreases l.len(),
{
    if l.len() == 0 {
        Some(acc)
    } else {
        match file_of_node(l[0]) {
            Some(f) => files_from_list(acc.push(f), l.drop_first()),
            None => None,
        }
    }
}

pub open spec fn files_of_node(t: JsonNode) -> Option<Seq<FileModel>> {
    match node_arr(t) {
        Some(l) => files_from_list(Seq::<FileModel>::empty(), l),
        None => None,
    }
}

fn parse_files(v: &serde_json::Value) -> (r: Option<Vec<FileItem>>)
    ensures
        match r {
            Some(fs) => files_of_node(tree_of(*v)) == Some(fs.deep_view()),
            None => files_of_node(tree_of(*v)) is None,
        },
{
    let arr = crate::json::json_array(v)?;
    let ghost l = node_arr(tree_of(*v))->0;
    let mut out: Vec<FileItem> = Vec::new();
    let mut i: usize = 0;
    proof {
        assert(l.skip(0) =~= l);
        assert(out.deep_view() =~= Seq::<FileModel>::empty());
    }
    while i < arr.len()
        invariant
            0 <= i <= arr@.len(),
            arr@.len() == l.len(),
            forall|j: int| 0 <= j < l.len() ==> tree_of(#[trigger] arr@[j]) == l[j],
            files_of_node(tree_of(*v)) == files_from_list(out.deep_view(), l.skip(i as int)),
        decreases arr@.len() - i,
    {
        proof {
            assert(l.skip(i as int)[0] == l[i as int]);
            assert(l.skip(i as int).drop_first() =~= l.skip(i + 1));
        }
        let node = &arr[i];
        let path = match crate::json::get_string(node, "path") {
            Some(s) => s,
            None => {
                return None;
            },
        };
        let size = match crate::json::get_u64(node, "size") {
            Some(n) => n,
            None => {
                return None;
            },
        };
        let modified = match crate::json::get_i64(node, "modified") {
            Some(n) => n,
            None => {
                return None;
            },
        };
        let ghost prev = out.deep_view();
        out.push(FileItem { path, size, modified });
        proof {
            assert(out.deep_view() =~= prev.push(out@[prev.len() as int].deep_view()));
            assert(out.deep_view().last() == file_of_node(l[i as int])->0);
        }
        i = i + 1;
    }
    proof {
        assert(l.skip(l.len() as int) =~= Seq::<JsonNode>::empty());
    }
    Some(out)
}

/// The image format a stored name denotes; unrecognized names read back as
/// `Unknown`.
pub open spec fn format_of(s: Seq<char>) -> ImageFormat {
    if s == "png"@ {
        ImageFormat::Png
    } else if s == "jpeg"@ {
        ImageFormat::Jpeg
    } else if s == "bmp"@ {
        ImageFormat::Bmp
    } else if s == "gif"@ {
        ImageFormat::Gif
    } else {
        ImageFormat::Unknown
    }
}

pub open spec fn data_bytes(t: JsonNode, key: Seq<char>) -> Option<Seq<u8>> {
    match node_get(t, key) {
        Some(c) => bytes_of_node(c),
        None => None,
    }
}

pub open spec fn image_of_node(t: JsonNode) -> Option<crate::model::ImageModel> {
    if field_u32(t, "width"@) is Some && field_u32(t, "height"@) is Some && field_str(
        t,
        "format"@,
    ) is Some && data_bytes(t, "data"@) is Some && data_bytes(t, "thumbnail"@) is Some {
        Some(
            crate::model::ImageModel {
                data: data_bytes(t, "data"@)->0,
                width: field_u32(t, "width"@)->0,
                height: field_u32(t, "height"@)->0,
                format: format_of(field_str(t, "format"@)->0),
                thumbnail: data_bytes(t, "thumbnail"@)->0,
            },
        )
    } else {
        None
    }
}

/// The content a node holds, dispatched on its stored discriminator.
pub open spec fn content_of_node(t: JsonNode) -> Option<ContentModel> {
    match field_str(t, "type"@) {
        Some(ty) => if ty == "text"@ {
            match field_str(t, "data"@) {
                Some(d) => Some(ContentModel::Text(d)),
                None => None,
            }
        } else if ty == "html"@ {
            match field_str(t, "data"@) {
                Some(d) => Some(ContentModel::Html(d)),
                None => None,
            }
        } else if ty == "richtext"@ {
            match field_str(t, "data"@) {
                Some(d) => Some(ContentModel::RichText(d)),
                None => None,
            }
        } else if ty == "image"@ {
            match image_of_node(t) {
                Some(im) => Some(ContentModel::Image(im)),
                None => None,
            }
        } else if ty == "file"@ {
            match node_get(t, "data"@) {
                Some(d) => match files_of_node(d) {
                    Some(fs) => Some(ContentModel::FileList(fs)),
                    None => None,
                },
                None => None,
            }
        } else if ty == "custom"@ {
            if field_str(t, "name"@) is Some && data_bytes(t, "data"@) is Some {
                Some(ContentModel::Custom(field_str(t, "name"@)->0, data_bytes(t, "data"@)->0))
            } else {
                None
            }
        } else {
            None
        },
        None => None,
    }
}

#[verifier::rlimit(60)]
fn parse_content(v: &serde_json::Value) -> (r: Option<ClipboardContent>)
    ensures
        match r {
            Some(c) => content_of_node(tree_of(*v)) == Some(c@),
            None => content_of_node(tree_of(*v)) is None,
        },
{
    let ty = crate::json::get_string(v, "type")?;
    if ty == String::from_str("text") {
        let d = crate::json::get_string(v, "data")?;
        Some(ClipboardContent::Text(d))
    } else if ty == String::from_str("html") {
        let d = crate::json::get_string(v, "data")?;
        Some(ClipboardContent::Html(d))
    } else if ty == String::from_str("richtext") {
        let d = crate::json::get_string(v, "data")?;
        Some(ClipboardContent::RichText(d))
    } else if ty == String::from_str("image") {
        let width = crate::json::get_u32(v, "width")?;
        let height = crate::json::get_u32(v, "height")?;
        let fmt = crate::json::get_string(v, "format")?;
        let format = if fmt == String::from_str("png") {
            ImageFormat::Png
        } else if fmt == String::from_str("jpeg") {
            ImageFormat::Jpeg
        } else if fmt == String::from_str("bmp") {
            ImageFormat::Bmp
        } else if fmt == String::from_str("gif") {
            ImageFormat::Gif
        } else {
            ImageFormat::Unknown
        };
        let data_node = crate::json::json_get(v, "data")?;
        let data = get_byte_vec(data_node)?;
        let thumb_node = crate::json::json_get(v, "thumbnail")?;
        let thumbnail = get_byte_vec(thumb_node)?;
        Some(
            ClipboardContent::Image(
                crate::model::ImageData { data, width, height, format, thumbnail },
            ),
        )
    } else if ty == String::from_str("file") {
        let node = crate::json::json_get(v, "data")?;
        let fs = parse_files(node)?;
        Some(ClipboardContent::FileList(fs))
    } else if ty == String::from_str("custom") {
        let name = crate::json::get_string(v, "name")?;
        let node = crate::json::json_get(v, "data")?;
        let d = get_byte_vec(node)?;
        Some(ClipboardContent::Custom(name, d))
    } else {
        None
    }
}

/// A nullable string field: absent and `null` both read back as nothing.
pub open spec fn opt_str_of(t: JsonNode, key: Seq<char>) -> Option<Option<Seq<char>>> {
    match node_get(t, key) {
        Some(c) => if c is Null {
            Some(None)
        } else {
            match node_str(c) {
                Some(s) => Some(Some(s)),
                None => None,
            }
        },
        None => Some(None),
    }
}

fn opt_string_field(v: &serde_json::Value, key: &str) -> (r: Option<Option<String>>)
    ensures
        match r {
            Some(o) => opt_str_of(tree_of(*v), key@) == Some(o.deep_view()),
            None => opt_str_of(tree_of(*v), key@) is None,
        },
{
    match crate::json::json_get(v, key) {
        Some(node) => {
            if crate::json::json_is_null(node) {
                Some(None)
            } else {
                match crate::json::json_string(node) {
                    Some(s) => Some(Some(s)),
                    None => None,
                }
            }
        },
        None => Some(None),
    }
}

/// A nullable byte-array field: absent and `null` both read back as
/// nothing.
pub open spec fn opt_bytes_of(t: JsonNode, key: Seq<char>) -> Option<Option<Seq<u8>>> {
    match node_get(t, key) {
        Some(c) => if c is Null {
            Some(None)
        } else {
            match bytes_of_node(c) {
                Some(b) => Some(Some(b)),
                None => None,
            }
        },
        None => Some(None),
    }
}

pub open spec fn is_hex_id(s: Seq<char>) -> bool {
    s.len() == 32 && (forall|i: int|
        0 <= i < s.len() ==> crate::numfmt::is_hex_digit(#[trigger] s[i]))
}

/// The identifier a row carries: its own, when it has one; the fallback
/// when the field is absent; nothing when the field is unreadable.
pub open spec fn id_of_node(t: JsonNode, fallback: u128) -> Option<u128> {
    match node_get(t, "id"@) {
        Some(c) => match node_str(c) {
            Some(s) => if is_hex_id(s) {
                Some(crate::numfmt::hex_value(s) as u128)
            } else {
                None
            },
            None => None,
        },
        None => Some(fallback),
    }
}

pub open spec fn tags_piece(t: JsonNode) -> Option<Seq<Seq<char>>> {
    match node_get(t, "tags"@) {
        Some(c) => tags_of_node(c),
        None => Some(Seq::<Seq<char>>::empty()),
    }
}

pub open spec fn md_piece(t: JsonNode) -> Option<Seq<(Seq<char>, Seq<char>)>> {
    match node_get(t, "metadata"@) {
        Some(c) => md_of_node(c),
        None => Some(Seq::<(Seq<char>, Seq<char>)>::empty()),
    }
}

pub open spec fn flag_piece(t: JsonNode, key: Seq<char>) -> Option<bool> {
    match node_get(t, key) {
        Some(c) => node_bool(c),
        None => Some(false),
    }
}

pub open spec fn ts_piece(t: JsonNode) -> Option<i64> {
    match node_get(t, "timestamp"@) {
        Some(c) => node_i64(c),
        None => None,
    }
}

pub open spec fn content_piece(t: JsonNode) -> Option<ContentModel> {
    match node_get(t, "content"@) {
        Some(c) => content_of_node(c),
        None => None,
    }
}

pub open spec fn entry_pieces_ok(t: JsonNode, fid: u128) -> bool {
    &&& content_piece(t) is Some
    &&& ts_piece(t) is Some
    &&& id_of_node(t, fid) is Some
    &&& tags_piece(t) is Some
    &&& flag_piece(t, "favorite"@) is Some
    &&& flag_piece(t, "pinned"@) is Some
    &&& opt_str_of(t, "source_app"@) is Some
    &&& opt_str_of(t, "source_window"@) is Some
    &&& opt_bytes_of(t, "preview_image"@) is Some
    &&& md_piece(t) is Some
}

/// The entry one row deserializes to, given the identifier to fall back
/// on: every field comes from the row, and the preview is re-derived from
/// the content so the entry is well-formed.
pub open spec fn entry_of_node(t: JsonNode, fid: u128) -> Option<ItemModel> {
    if entry_pieces_ok(t, fid) {
        Some(
            ItemModel {
                id: id_of_node(t, fid)->0,
                content: content_piece(t)->0,
                timestamp: ts_piece(t)->0,
                tags: tags_piece(t)->0,
                favorite: flag_piece(t, "favorite"@)->0,
                pinned: flag_piece(t, "pinned"@)->0,
                source_app: opt_str_of(t, "source_app"@)->0,
                source_window: opt_str_of(t, "source_window"@)->0,
                preview_text: crate::model::preview_of_content(content_piece(t)->0),
                preview_image: opt_bytes_of(t, "preview_image"@)->0,
                metadata: md_piece(t)->0,
            },
        )
    } else {
        None
    }
}

/// Reads one entry.  The result is exactly what the row deserializes to;
/// only the fresh identifier drawn for a row that lacks one is left
/// existential.
#[verifier::rlimit(100)]
fn parse_entry(v: &serde_json::Value) -> (r: Option<ClipboardItem>)
    ensures
        r is None ==> forall|fid: u128| #[trigger] entry_of_node(tree_of(*v), fid) is None,
        r matches Some(it) ==> crate::model::valid_item(it@) && exists|fid: u128|
            #[trigger] entry_of_node(tree_of(*v), fid) == Some(it@),
{
    let ghost t = tree_of(*v);
    let content_node = crate::json::json_get(v, "content")?;
    let content = parse_content(content_node)?;
    let ts_node = crate::json::json_get(v, "timestamp")?;
    let timestamp = crate::json::json_i64(ts_node)?;
    let ghost mut gid: u128 = 0;
    let id: u128 = match crate::json::json_get(v, "id") {
        Some(idv) => {
            let s = crate::json::json_string(idv)?;
            match crate::numfmt::hex32_to_id(s.as_str()) {
                Some(x) => {
                    proof {
                        crate::numfmt::lemma_hex_value_bound(s@);
                        crate::numfmt::lemma_pow16_32_value();
                        assert(x == crate::numfmt::hex_value(s@) as u128);
                    }
                    x
                },
                None => {
                    return None;
                },
            }
        },
        None => {
            let f = crate::sys::fresh_id();
            proof {
                gid = f;
            }
            f
        },
    };
    let tags = match crate::json::json_get(v, "tags") {
        Some(tv) => parse_tags(tv)?,
        None => Vec::new(),
    };
    let favorite = match crate::json::json_get(v, "favorite") {
        Some(b) => crate::json::json_bool_of(b)?,
        None => false,
    };
    let pinned = match crate::json::json_get(v, "pinned") {
        Some(b) => crate::json::json_bool_of(b)?,
        None => false,
    };
    let source_app = opt_string_field(v, "source_app")?;
    let source_window = opt_string_field(v, "source_window")?;
    let preview_image = match crate::json::json_get(v, "preview_image") {
        Some(node) => {
            if crate::json::json_is_null(node) {
                None
            } else {
                Some(get_byte_vec(node)?)
            }
        },
        None => None,
    };
    let metadata = match crate::json::json_get(v, "metadata") {
        Some(mv) => parse_metadata(mv)?,
        None => Vec::new(),
    };
    let preview_text = crate::model::derive_preview(&content);
    let item = ClipboardItem {
        id,
        content,
        timestamp,
        tags,
        favorite,
        pinned,
        source_app,
        source_window,
        preview_text,
        preview_image,
        metadata,
    };
    proof {
        assert(item@.tags == item.tags.deep_view());
        assert(item@.metadata == item.metadata.deep_view());
        assert(item.tags.deep_view().len() == item.tags@.len());
        assert(item.metadata.deep_view().len() == item.metadata@.len());
        assert(tags_piece(t) == Some(item@.tags)) by {
            if node_get(t, "tags"@) is None {
                assert(item.tags@.len() == 0);
                assert(item@.tags =~= Seq::<Seq<char>>::empty());
            }
        }
        assert(md_piece(t) == Some(item@.metadata)) by {
            if node_get(t, "metadata"@) is None {
                assert(item.metadata@.len() == 0);
                assert(item@.metadata =~= Seq::<(Seq<char>, Seq<char>)>::empty());
            }
        }
        assert(crate::model::no_dup_strings(item@.tags)) by {
            if node_get(t, "tags"@) is None {
                assert(item@.tags =~= Seq::<Seq<char>>::empty());
            }
        }
        assert(crate::model::unique_keys(item@.metadata)) by {
            if node_get(t, "metadata"@) is None {
                assert(item@.metadata =~= Seq::<(Seq<char>, Seq<char>)>::empty());
            }
        }
        assert(content_piece(t) == Some(item@.content));
        assert(ts_piece(t) == Some(item@.timestamp));
        assert(id_of_node(t, gid) == Some(item@.id));
        assert(flag_piece(t, "favorite"@) == Some(item@.favorite));
        assert(flag_piece(t, "pinned"@) == Some(item@.pinned));
        assert(opt_str_of(t, "source_app"@) == Some(item@.source_app));
        assert(opt_str_of(t, "source_window"@) == Some(item@.source_window));
        assert(opt_bytes_of(t, "preview_image"@) == Some(item@.preview_image));
        assert(entry_of_node(t, gid) == Some(item@));
        assert(crate::model::valid_item(item@));
    }
    Some(item)
}

pub open spec fn items_from_rows(rows: Seq<JsonNode>, ids: Seq<u128>) -> Seq<ItemModel>
    decreases rows.len(),
{
    if rows.len() == 0 {
        Seq::<ItemModel>::empty()
    } else {
        let rest = items_from_rows(rows.drop_first(), ids.drop_first());
        match entry_of_node(rows[0], ids[0]) {
            Some(m) => seq![m] + rest,
            None => rest,
        }
    }
}

pub proof fn lemma_items_from_rows_push(
    rows: Seq<JsonNode>,
    ids: Seq<u128>,
    rw: JsonNode,
    fid: u128,
)
    requires
        ids.len() == rows.len(),
    ensures
        items_from_rows(rows.push(rw), ids.push(fid)) == items_from_rows(rows, ids) + (
        match entry_of_node(rw, fid) {
            Some(m) => seq![m],
            None => Seq::<ItemModel>::empty(),
        }),
    decreases rows.len(),
{
    if rows.len() == 0 {
        reveal_with_fuel(items_from_rows, 3);
        assert(rows.push(rw)[0] == rw);
        assert(ids.push(fid)[0] == fid);
        assert(rows.push(rw).drop_first() =~= Seq::<JsonNode>::empty());
        assert(ids.push(fid).drop_first() =~= Seq::<u128>::empty());
        assert(items_from_rows(rows, ids) =~= Seq::<ItemModel>::empty());
        match entry_of_node(rw, fid) {
            Some(m) => {
                assert(items_from_rows(rows.push(rw), ids.push(fid)) =~= items_from_rows(
                    rows,
                    ids,
                ) + seq![m]);
            },
            None => {
                assert(items_from_rows(rows.push(rw), ids.push(fid)) =~= items_from_rows(
                    rows,
                    ids,
                ));
            },
        }
    } else {
        assert(rows.push(rw)[0] == rows[0]);
        assert(ids.push(fid)[0] == ids[0]);
        assert(rows.push(rw).drop_first() =~= rows.drop_first().push(rw));
        assert(ids.push(fid).drop_first() =~= ids.drop_first().push(fid));
        lemma_items_from_rows_push(rows.drop_first(), ids.drop_first(), rw, fid);
    }
}

/// The rows of a document whose top level is an array (empty otherwise).
pub open spec fn doc_rows(s: Seq<char>) -> Seq<JsonNode> {
    match node_arr(parsed_tree(s)) {
        Some(l) => l,
        None => Seq::<JsonNode>::empty(),
    }
}

/// Reads the whole document: a JSON array of entries, and nothing else is
/// accepted.  The result is the document's rows in order, each read
/// exactly, with unreadable rows skipped; fresh identifiers stand in only
/// where a row carries none.
pub fn parse_items(doc: &str) -> (r: Option<Vec<ClipboardItem>>)
    ensures
        r is Some <==> crate::json::json_doc_is_array(doc@),
        r matches Some(out) ==> (forall|i: int|
            0 <= i < out.deep_view().len() ==> crate::model::valid_item(
                #[trigger] out.deep_view()[i],
            )) && exists|ids: Seq<u128>|
            ids.len() == doc_rows(doc@).len() && out.deep_view() == #[trigger] items_from_rows(
                doc_rows(doc@),
                ids,
            ),
{
    let arr = match crate::json::parse_json_array(doc) {
        Some(a) => a,
        None => {
            return None;
        },
    };
    let ghost rows = doc_rows(doc@);
    let mut out: Vec<ClipboardItem> = Vec::new();
    let ghost mut ids: Seq<u128> = Seq::<u128>::empty();
    let mut i: usize = 0;
    proof {
        assert(rows.take(0) =~= Seq::<JsonNode>::empty());
        assert(ids.take(0) =~= Seq::<u128>::empty());
        assert(out.deep_view() =~= Seq::<ItemModel>::empty());
    }
    while i < arr.len()
        invariant
            0 <= i <= arr@.len(),
            arr@.len() == rows.len(),
            forall|j: int| 0 <= j < rows.len() ==> tree_of(#[trigger] arr@[j]) == rows[j],
            ids.len() == i,
            out.deep_view() == items_from_rows(rows.take(i as int), ids),
            forall|j: int|
                0 <= j < out.deep_view().len() ==> crate::model::valid_item(
                    #[trigger] out.deep_view()[j],
                ),
        decreases arr@.len() - i,
    {
        proof {
            assert(rows.take(i + 1) =~= rows.take(i as int).push(rows[i as int]));
        }
        match parse_entry(&arr[i]) {
            Some(it) => {
                let ghost fid = choose|fid: u128|
                    entry_of_node(rows[i as int], fid) == Some(it@);
                proof {
                    lemma_items_from_rows_push(rows.take(i as int), ids, rows[i as int], fid);
                }
                let ghost prev = out.deep_view();
                out.push(it);
                proof {
                    assert(out.deep_view() =~= prev.push(out@[prev.len() as int].deep_view()));
                    assert(out.deep_view() =~= items_from_rows(rows.take(i as int), ids) + seq![
                        it@,
                    ]);
                    ids = ids.push(fid);
                }
            },
            None => {
                proof {
                    assert(entry_of_node(rows[i as int], 0u128) is None);
                    lemma_items_from_rows_push(rows.take(i as int), ids, rows[i as int], 0u128);
                    assert(items_from_rows(rows.take(i + 1), ids.push(0u128))
                        =~= items_from_rows(rows.take(i as int), ids));
                    ids = ids.push(0u128);
                }
            },
        }
        i = i + 1;
    }
    proof {
        assert(rows.take(rows.len() as int) =~= rows);
    }
    Some(out)
}

} // verus!
