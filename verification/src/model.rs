//! The data model: clipboard entries, their contents, search queries and
//! statistics, together with the mathematical models (`ItemModel` and
//! friends) that every contract in the crate speaks about.

use vstd::prelude::*;
use vstd::string::*;
use crate::numfmt::dec_str;
use crate::sys::push_char;

verus! {

#[derive(Clone, Copy, Debug, PartialEq, Eq, Structural)]
pub enum ImageFormat {
    Png,
    Jpeg,
    Bmp,
    Gif,
    Unknown,
}

#[derive(Clone, Copy, Debug, PartialEq, Eq, Structural)]
pub enum ContentType {
    Text,
    Image,
    File,
    Html,
    RichText,
    Custom,
}

impl DeepView for ContentType {
    type V = ContentType;

    open spec fn deep_view(&self) -> ContentType {
        *self
    }
}

#[derive(Clone, Copy, Debug, PartialEq, Eq, Structural)]
pub enum ExportFormat {
    Json,
    Csv,
    Html,
    Markdown,
}

#[derive(Clone, Copy, Debug, PartialEq, Eq, Structural)]
pub enum StoreError {
    NotFound,
    Full,
    Malformed,
}

#[derive(Debug, PartialEq)]
pub struct ImageData {
    pub data: Vec<u8>,
    pub width: u32,
    pub height: u32,
    pub format: ImageFormat,
    pub thumbnail: Vec<u8>,
}

pub ghost struct ImageModel {
    pub data: Seq<u8>,
    pub width: u32,
    pub height: u32,
    pub format: ImageFormat,
    pub thumbnail: Seq<u8>,
}

impl View for ImageData {
    type V = ImageModel;

    open spec fn view(&self) -> ImageModel {
        ImageModel {
            data: self.data@,
            width: self.width,
            height: self.height,
            format: self.format,
            thumbnail: self.thumbnail@,
        }
    }
}

impl DeepView for ImageData {
    type V = ImageModel;

    open spec fn deep_view(&self) -> ImageModel {
        self.view()
    }
}

impl Clone for ImageData {
    fn clone(&self) -> (r: Self)
        ensures
            r@ == self@,
    {
        ImageData {
            data: clone_bytes(&self.data),
            width: self.width,
            height: self.height,
            format: self.format,
            thumbnail: clone_bytes(&self.thumbnail),
        }
    }
}

#[derive(Debug, PartialEq)]
pub struct FileItem {
    pub path: String,
    pub size: u64,
    pub modified: i64,
}

pub ghost struct FileModel {
    pub path: Seq<char>,
    pub size: u64,
    pub modified: i64,
}

impl View for FileItem {
    type V = FileModel;

    open spec fn view(&self) -> FileModel {
        FileModel { path: self.path@, size: self.size, modified: self.modified }
    }
}

impl DeepView for FileItem {
    type V = FileModel;

    open spec fn deep_view(&self) -> FileModel {
        self.view()
    }
}

impl Clone for FileItem {
    fn clone(&self) -> (r: Self)
        ensures
            r@ == self@,
    {
        FileItem { path: self.path.clone(), size: self.size, modified: self.modified }
    }
}

#[derive(Debug, PartialEq)]
pub enum ClipboardContent {
    Text(String),
    Html(String),
    Image(ImageData),
    FileList(Vec<FileItem>),
    RichText(String),
    Custom(String, Vec<u8>),
}

pub ghost enum ContentModel {
    Text(Seq<char>),
    Html(Seq<char>),
    Image(ImageModel),
    FileList(Seq<FileModel>),
    RichText(Seq<char>),
    Custom(Seq<char>, Seq<u8>),
}

impl View for ClipboardContent {
    type V = ContentModel;

    open spec fn view(&self) -> ContentModel {
        match self {
            ClipboardContent::Text(s) => ContentModel::Text(s@),
            ClipboardContent::Html(s) => ContentModel::Html(s@),
            ClipboardContent::Image(img) => ContentModel::Image(img@),
            ClipboardContent::FileList(fs) => ContentModel::FileList(fs.deep_view()),
            ClipboardContent::RichText(s) => ContentModel::RichText(s@),
            ClipboardContent::Custom(n, d) => ContentModel::Custom(n@, d@),
        }
    }
}

impl DeepView for ClipboardContent {
    type V = ContentModel;

    open spec fn deep_view(&self) -> ContentModel {
        self.view()
    }
}

impl Clone for ClipboardContent {
    fn clone(&self) -> (r: Self)
        ensures
            r@ == self@,
    {
        match self {
            ClipboardContent::Text(s) => ClipboardContent::Text(s.clone()),
            ClipboardContent::Html(s) => ClipboardContent::Html(s.clone()),
            ClipboardContent::Image(img) => ClipboardContent::Image(img.clone()),
            ClipboardContent::FileList(fs) => ClipboardContent::FileList(clone_files(fs)),
            ClipboardContent::RichText(s) => ClipboardContent::RichText(s.clone()),
            ClipboardContent::Custom(n, d) => ClipboardContent::Custom(
                n.clone(),
                clone_bytes(d),
            ),
        }
    }
}

#[derive(Debug, PartialEq)]
pub struct ClipboardItem {
    pub id: u128,
    pub content: ClipboardContent,
    pub timestamp: i64,
    pub tags: Vec<String>,
    pub favorite: bool,
    pub pinned: bool,
    pub source_app: Option<String>,
    pub source_window: Option<String>,
    pub preview_text: String,
    pub preview_image: Option<Vec<u8>>,
    pub metadata: Vec<(String, String)>,
}

pub ghost struct ItemModel {
    pub id: u128,
    pub content: ContentModel,
    pub timestamp: i64,
    pub tags: Seq<Seq<char>>,
    pub favorite: bool,
    pub pinned: bool,
    pub source_app: Option<Seq<char>>,
    pub source_window: Option<Seq<char>>,
    pub preview_text: Seq<char>,
    pub preview_image: Option<Seq<u8>>,
    pub metadata: Seq<(Seq<char>, Seq<char>)>,
}

impl View for ClipboardItem {
    type V = ItemModel;

    open spec fn view(&self) -> ItemModel {
        ItemModel {
            id: self.id,
            content: self.content@,
            timestamp: self.timestamp,
            tags: self.tags.deep_view(),
            favorite: self.favorite,
            pinned: self.pinned,
            source_app: self.source_app.deep_view(),
            source_window: self.source_window.deep_view(),
            preview_text: self.preview_text@,
            preview_image: self.preview_image.deep_view(),
            metadata: self.metadata.deep_view(),
        }
    }
}

impl DeepView for ClipboardItem {
    type V = ItemModel;

    open spec fn deep_view(&self) -> ItemModel {
        self.view()
    }
}

impl Clone for ClipboardItem {
    fn clone(&self) -> (r: Self)
        ensures
            r@ == self@,
    {
        let r = ClipboardItem {
            id: self.id,
            content: self.content.clone(),
            timestamp: self.timestamp,
            tags: clone_strings(&self.tags),
            favorite: self.favorite,
            pinned: self.pinned,
            source_app: clone_opt_string(&self.source_app),
            source_window: clone_opt_string(&self.source_window),
            preview_text: self.preview_text.clone(),
            preview_image: clone_opt_bytes(&self.preview_image),
            metadata: clone_pairs(&self.metadata),
        };
        r
    }
}

#[derive(Debug)]
pub struct SearchQuery {
    pub text: Option<String>,
    pub tags: Vec<String>,
    pub date_from: Option<i64>,
    pub date_to: Option<i64>,
    pub content_types: Vec<ContentType>,
    pub favorite_only: bool,
    pub pinned_only: bool,
    pub limit: Option<u32>,
    pub offset: Option<u32>,
}

pub ghost struct QueryModel {
    pub text: Option<Seq<char>>,
    pub tags: Seq<Seq<char>>,
    pub date_from: Option<i64>,
    pub date_to: Option<i64>,
    pub content_types: Seq<ContentType>,
    pub favorite_only: bool,
    pub pinned_only: bool,
    pub limit: Option<u32>,
    pub offset: Option<u32>,
}

impl View for SearchQuery {
    type V = QueryModel;

    open spec fn view(&self) -> QueryModel {
        QueryModel {
            text: self.text.deep_view(),
            tags: self.tags.deep_view(),
            date_from: self.date_from,
            date_to: self.date_to,
            content_types: self.content_types.deep_view(),
            favorite_only: self.favorite_only,
            pinned_only: self.pinned_only,
            limit: self.limit,
            offset: self.offset,
        }
    }
}

impl SearchQuery {
    /// A query with no filters: everything matches, no pagination.
    pub fn any() -> (r: SearchQuery)
        ensures
            r@.text is None,
            r@.tags == Seq::<Seq<char>>::empty(),
            r@.date_from is None,
            r@.date_to is None,
            r@.content_types == Seq::<ContentType>::empty(),
            !r@.favorite_only,
            !r@.pinned_only,
            r@.limit is None,
            r@.offset is None,
    {
        let r = SearchQuery {
            text: None,
            tags: Vec::new(),
            date_from: None,
            date_to: None,
            content_types: Vec::new(),
            favorite_only: false,
            pinned_only: false,
            limit: None,
            offset: None,
        };
        proof {
            assert(r@.tags =~= Seq::<Seq<char>>::empty());
            assert(r@.content_types =~= Seq::<ContentType>::empty());
        }
        r
    }
}

#[derive(Clone, Copy, Debug, PartialEq, Eq, Structural)]
pub struct Statistics {
    pub total_items: u32,
    pub text_items: u32,
    pub image_items: u32,
    pub file_items: u32,
    pub html_items: u32,
    pub favorite_items: u32,
    pub pinned_items: u32,
    pub total_size_bytes: u64,
    pub database_size_bytes: u64,
    pub cache_size_bytes: u64,
}

// ---------------------------------------------------------------------------
// Derived notions: the content-type discriminator, the derived preview text
// and the payload size of an entry.
// ---------------------------------------------------------------------------

pub open spec fn content_type_of(c: ContentModel) -> ContentType {
    match c {
        ContentModel::Text(_) => ContentType::Text,
        ContentModel::Html(_) => ContentType::Html,
        ContentModel::Image(_) => ContentType::Image,
        ContentModel::FileList(_) => ContentType::File,
        ContentModel::RichText(_) => ContentType::RichText,
        ContentModel::Custom(_, _) => ContentType::Custom,
    }
}

/// The preview of a piece of text: the text itself, truncated to its first
/// 100 characters followed by an ellipsis marker when longer, and a fixed
/// marker when empty so that previews are never empty.
pub open spec fn text_preview(t: Seq<char>) -> Seq<char> {
    if t.len() == 0 {
        "(empty)"@
    } else if t.len() > 100 {
        t.take(100) + "..."@
    } else {
        t
    }
}

/// The preview text derived from an entry's content.  Every stored entry
/// carries exactly this preview.
pub open spec fn preview_of_content(c: ContentModel) -> Seq<char> {
    match c {
        ContentModel::Text(t) => text_preview(t),
        ContentModel::Html(t) => text_preview(t),
        ContentModel::RichText(t) => text_preview(t),
        ContentModel::Image(img) => "[Image "@ + dec_str(img.width as nat) + "x"@ + dec_str(
            img.height as nat,
        ) + "]"@,
        ContentModel::FileList(fs) => "[Files "@ + dec_str(fs.len()) + "]"@,
        ContentModel::Custom(name, _) => "[Custom "@ + name + "]"@,
    }
}

pub proof fn lemma_preview_nonempty(c: ContentModel)
    ensures
        preview_of_content(c).len() > 0,
{
    reveal_strlit("(empty)");
    reveal_strlit("...");
    reveal_strlit("[Image ");
    reveal_strlit("[Files ");
    reveal_strlit("[Custom ");
    reveal_strlit("]");
    reveal_strlit("x");
}

pub open spec fn no_dup_strings(s: Seq<Seq<char>>) -> bool {
    forall|i: int, j: int| 0 <= i < j < s.len() ==> s[i] != s[j]
}

pub open spec fn unique_keys(md: Seq<(Seq<char>, Seq<char>)>) -> bool {
    forall|i: int, j: int| 0 <= i < j < md.len() ==> md[i].0 != md[j].0
}

/// A well-formed entry: the preview is the one derived from the content,
/// the tags hold no duplicates, and the metadata keys are unique.
pub open spec fn valid_item(m: ItemModel) -> bool {
    &&& m.preview_text == preview_of_content(m.content)
    &&& no_dup_strings(m.tags)
    &&& unique_keys(m.metadata)
}

/// The payload size, in bytes, of a file list: the UTF-8 lengths of the
/// paths it holds.
pub open spec fn files_size(fs: Seq<FileModel>) -> int
    decreases fs.len(),
{
    if fs.len() == 0 {
        0
    } else {
        files_size(fs.drop_last()) + vstd::utf8::encode_utf8(fs.last().path).len()
    }
}

/// The payload size of a content value in bytes: UTF-8 for text, raw
/// lengths for binary payloads.
pub open spec fn content_size(c: ContentModel) -> int {
    match c {
        ContentModel::Text(t) => vstd::utf8::encode_utf8(t).len() as int,
        ContentModel::Html(t) => vstd::utf8::encode_utf8(t).len() as int,
        ContentModel::RichText(t) => vstd::utf8::encode_utf8(t).len() as int,
        ContentModel::Image(img) => img.data.len() + img.thumbnail.len() as int,
        ContentModel::FileList(fs) => files_size(fs),
        ContentModel::Custom(name, d) => vstd::utf8::encode_utf8(name).len() + d.len() as int,
    }
}

/// The payload size of one entry: its content plus its preview image.
pub open spec fn item_size(m: ItemModel) -> int {
    content_size(m.content) + (match m.preview_image {
        Some(p) => p.len() as int,
        None => 0,
    })
}

// ---------------------------------------------------------------------------
// Executable helpers: deep clones with view equality, preview derivation,
// saturating size arithmetic.
// ---------------------------------------------------------------------------

pub fn clone_bytes(v: &Vec<u8>) -> (r: Vec<u8>)
    ensures
        r@ == v@,
{
    let mut r: Vec<u8> = Vec::new();
    let mut i: usize = 0;
    while i < v.len()
        invariant
            0 <= i <= v.len(),
            r@ =~= v@.take(i as int),
        decreases v.len() - i,
    {
        r.push(v[i]);
        i = i + 1;
    }
    proof {
        assert(r@ =~= v@);
    }
    r
}

pub fn clone_strings(v: &Vec<String>) -> (r: Vec<String>)
    ensures
        r.deep_view() == v.deep_view(),
{
    let mut r: Vec<String> = Vec::new();
    let mut i: usize = 0;
    while i < v.len()
        invariant
            0 <= i <= v.len(),
            r.deep_view() =~= v.deep_view().take(i as int),
        decreases v.len() - i,
    {
        r.push(v[i].clone());
        i = i + 1;
    }
    proof {
        assert(r.deep_view() =~= v.deep_view());
    }
    r
}

fn clone_files(v: &Vec<FileItem>) -> (r: Vec<FileItem>)
    ensures
        r.deep_view() == v.deep_view(),
{
    let mut r: Vec<FileItem> = Vec::new();
    let mut i: usize = 0;
    while i < v.len()
        invariant
            0 <= i <= v.len(),
            r.deep_view() =~= v.deep_view().take(i as int),
        decreases v.len() - i,
    {
        r.push(v[i].clone());
        i = i + 1;
    }
    proof {
        assert(r.deep_view() =~= v.deep_view());
    }
    r
}

pub fn clone_pairs(v: &Vec<(String, String)>) -> (r: Vec<(String, String)>)
    ensures
        r.deep_view() == v.deep_view(),
{
    let mut r: Vec<(String, String)> = Vec::new();
    let mut i: usize = 0;
    while i < v.len()
        invariant
            0 <= i <= v.len(),
            r.deep_view() =~= v.deep_view().take(i as int),
        decreases v.len() - i,
    {
        let p = (v[i].0.clone(), v[i].1.clone());
        r.push(p);
        i = i + 1;
    }
    proof {
        assert(r.deep_view() =~= v.deep_view());
    }
    r
}

pub fn clone_opt_string(v: &Option<String>) -> (r: Option<String>)
    ensures
        r.deep_view() == v.deep_view(),
{
    match v {
        Some(s) => Some(s.clone()),
        None => None,
    }
}

pub fn clone_opt_bytes(v: &Option<Vec<u8>>) -> (r: Option<Vec<u8>>)
    ensures
        r.deep_view() == v.deep_view(),
{
    match v {
        Some(s) => {
            let c = clone_bytes(s);
            proof {
                assert(c@ =~= s@);
            }
            Some(c)
        },
        None => None,
    }
}

/// `a + b`, saturating at the largest `u64`.
pub fn sat_add_u64(a: u64, b: u64) -> (r: u64)
    ensures
        r as int == if a + b <= u64::MAX {
            a + b
        } else {
            u64::MAX as int
        },
{
    if a <= u64::MAX - b {
        a + b
    } else {
        u64::MAX
    }
}

/// The preview of a piece of text, executable side of `text_preview`.
pub fn preview_of_text(t: &str) -> (r: String)
    ensures
        r@ == text_preview(t@),
{
    let n = t.unicode_len();
    if n == 0 {
        String::from_str("(empty)")
    } else if n > 100 {
        let mut s = String::from_str(t.substring_char(0, 100));
        s.append("...");
        s
    } else {
        String::from_str(t)
    }
}

/// Derives the preview text of a content value; executable side of
/// `preview_of_content`.
pub fn derive_preview(c: &ClipboardContent) -> (r: String)
    ensures
        r@ == preview_of_content(c@),
{
    match c {
        ClipboardContent::Text(t) => preview_of_text(t.as_str()),
        ClipboardContent::Html(t) => preview_of_text(t.as_str()),
        ClipboardContent::RichText(t) => preview_of_text(t.as_str()),
        ClipboardContent::Image(img) => {
            let mut s = String::from_str("[Image ");
            s.append(crate::numfmt::u64_to_dec(img.width as u64).as_str());
            s.append("x");
            s.append(crate::numfmt::u64_to_dec(img.height as u64).as_str());
            s.append("]");
            s
        },
        ClipboardContent::FileList(fs) => {
            let mut s = String::from_str("[Files ");
            s.append(crate::numfmt::u64_to_dec(fs.len() as u64).as_str());
            s.append("]");
            proof {
                assert(fs.deep_view().len() == fs@.len());
            }
            s
        },
        ClipboardContent::Custom(name, _) => {
            let mut s = String::from_str("[Custom ");
            s.append(name.as_str());
            s.append("]");
            s
        },
    }
}

/// The payload size of one entry, saturating at the largest `u64`; the
/// mathematical value is `item_size`.
pub fn measure_item(it: &ClipboardItem) -> (r: u64)
    ensures
        r as int == if item_size(it@) <= u64::MAX {
            item_size(it@)
        } else {
            u64::MAX as int
        },
{
    let content_part: u64 = match &it.content {
        ClipboardContent::Text(t) => str_len_u64(t),
        ClipboardContent::Html(t) => str_len_u64(t),
        ClipboardContent::RichText(t) => str_len_u64(t),
        ClipboardContent::Image(img) => sat_add_u64(
            usize_to_u64(img.data.len()),
            usize_to_u64(img.thumbnail.len()),
        ),
        ClipboardContent::FileList(fs) => measure_files(fs),
        ClipboardContent::Custom(name, d) => sat_add_u64(
            str_len_u64(name),
            usize_to_u64(d.len()),
        ),
    };
    let image_part: u64 = match &it.preview_image {
        Some(p) => usize_to_u64(p.len()),
        None => 0,
    };
    sat_add_u64(content_part, image_part)
}

fn usize_to_u64(n: usize) -> (r: u64)
    ensures
        r == n,
{
    n as u64
}

fn str_len_u64(s: &String) -> (r: u64)
    ensures
        r == vstd::utf8::encode_utf8(s@).len(),
{
    broadcast use vstd::slice::axiom_spec_len;

    let b: &[u8] = s.as_str().as_bytes();
    usize_to_u64(b.len())
}

fn measure_files(fs: &Vec<FileItem>) -> (r: u64)
    ensures
        r as int == if files_size(fs.deep_view()) <= u64::MAX {
            files_size(fs.deep_view())
        } else {
            u64::MAX as int
        },
{
    let mut acc: u64 = 0;
    let mut i: usize = 0;
    while i < fs.len()
        invariant
            0 <= i <= fs.len(),
            acc as int == if files_size(fs.deep_view().take(i as int)) <= u64::MAX {
                files_size(fs.deep_view().take(i as int))
            } else {
                u64::MAX as int
            },
        decreases fs.len() - i,
    {
        proof {
            assert(fs.deep_view().take(i + 1).drop_last() =~= fs.deep_view().take(i as int));
            assert(fs.deep_view().take(i + 1).last() == fs.deep_view()[i as int]);
            lemma_files_size_nonneg(fs.deep_view().take(i as int));
        }
        acc = sat_add_u64(acc, str_len_u64(&fs[i].path));
        i = i + 1;
    }
    proof {
        assert(fs.deep_view().take(fs.len() as int) =~= fs.deep_view());
    }
    acc
}

pub proof fn lemma_files_size_nonneg(fs: Seq<FileModel>)
    ensures
        files_size(fs) >= 0,
    decreases fs.len(),
{
    if fs.len() > 0 {
        lemma_files_size_nonneg(fs.drop_last());
    }
}

/// Builds a well-formed entry from freshly captured content: the preview is
/// derived from the content, tags and metadata start empty, protection flags
/// start clear.
pub fn assemble_item(
    id: u128,
    content: ClipboardContent,
    timestamp: i64,
    source_app: Option<String>,
    source_window: Option<String>,
    preview_image: Option<Vec<u8>>,
) -> (r: ClipboardItem)
    ensures
        valid_item(r@),
        r@.id == id,
        r@.content == content@,
        r@.timestamp == timestamp,
        r@.tags == Seq::<Seq<char>>::empty(),
        !r@.favorite,
        !r@.pinned,
        r@.source_app == source_app.deep_view(),
        r@.source_window == source_window.deep_view(),
        r@.preview_text == preview_of_content(content@),
        r@.preview_image == preview_image.deep_view(),
        r@.metadata == Seq::<(Seq<char>, Seq<char>)>::empty(),
{
    let preview_text = derive_preview(&content);
    let r = ClipboardItem {
        id,
        content,
        timestamp,
        tags: Vec::new(),
        favorite: false,
        pinned: false,
        source_app,
        source_window,
        preview_text,
        preview_image,
        metadata: Vec::new(),
    };
    proof {
        assert(r@.tags =~= Seq::<Seq<char>>::empty());
        assert(r@.metadata =~= Seq::<(Seq<char>, Seq<char>)>::empty());
    }
    r
}

} // verus!

verus! {

/// Filtering a duplicate-free sequence of strings keeps it duplicate-free,
/// and every element of the result came from the original.
pub proof fn lemma_no_dup_filter(t: Seq<Seq<char>>, pred: spec_fn(Seq<char>) -> bool)
    requires
        no_dup_strings(t),
    ensures
        no_dup_strings(t.filter(pred)),
        forall|x: Seq<char>| t.filter(pred).contains(x) ==> t.contains(x),
    decreases t.len(),
{
    reveal_with_fuel(Seq::filter, 1);
    if t.len() == 0 {
        assert(t.filter(pred) =~= Seq::<Seq<char>>::empty());
    } else {
        let head = t.drop_last();
        let f0 = head.filter(pred);
        lemma_no_dup_filter(head, pred);
        assert(forall|j: int| 0 <= j < head.len() ==> head[j] == t[j]);
        if pred(t.last()) {
            assert(t.filter(pred) == f0.push(t.last()));
            assert forall|a: int, b: int|
                0 <= a < b < f0.push(t.last()).len() implies f0.push(t.last())[a] != f0.push(
                t.last(),
            )[b] by {
                if b < f0.len() {
                    assert(f0.push(t.last())[a] == f0[a] && f0.push(t.last())[b] == f0[b]);
                } else {
                    assert(f0.push(t.last())[b] == t.last());
                    assert(f0.contains(f0[a]));
                    assert(head.contains(f0[a]));
                    let w = choose|w: int| 0 <= w < head.len() && head[w] == f0[a];
                    assert(t[w] == f0[a]);
                    assert(t[w] != t[t.len() - 1]);
                }
            }
            assert forall|x: Seq<char>| t.filter(pred).contains(x) implies t.contains(x) by {
                let w = choose|w: int|
                    0 <= w < t.filter(pred).len() && t.filter(pred)[w] == x;
                if w < f0.len() {
                    assert(f0.contains(x));
                    assert(head.contains(x));
                    let v = choose|v: int| 0 <= v < head.len() && head[v] == x;
                    assert(t[v] == x);
                } else {
                    assert(x == t.last());
                    assert(t[t.len() - 1] == x);
                }
            }
        } else {
            assert(t.filter(pred) == f0);
            assert forall|x: Seq<char>| t.filter(pred).contains(x) implies t.contains(x) by {
                assert(head.contains(x));
                let v = choose|v: int| 0 <= v < head.len() && head[v] == x;
                assert(t[v] == x);
            }
        }
    }
}

} // verus!

verus! {

/// The stored discriminator of a content value; executable side of
/// `content_type_of`.
pub fn content_type_exec(c: &ClipboardContent) -> (r: ContentType)
    ensures
        r == content_type_of(c@),
{
    match c {
        ClipboardContent::Text(_) => ContentType::Text,
        ClipboardContent::Html(_) => ContentType::Html,
        ClipboardContent::Image(_) => ContentType::Image,
        ClipboardContent::FileList(_) => ContentType::File,
        ClipboardContent::RichText(_) => ContentType::RichText,
        ClipboardContent::Custom(_, _) => ContentType::Custom,
    }
}

} // verus!
