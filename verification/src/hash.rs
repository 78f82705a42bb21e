//! Content digests: a SHA-256 fingerprint of an entry's payload, rendered
//! in lower-case hexadecimal.  The digest itself is computed by the sha2
//! crate; choosing what is hashed and the rendering are verified here.

use vstd::prelude::*;
use vstd::string::*;
use vstd::utf8::encode_utf8;
use crate::model::ClipboardContent;
use crate::model::ContentModel;
use crate::model::FileModel;
use crate::numfmt::hex_char;
use crate::sys::push_char;

verus! {

/// What SHA-256 returns on a byte sequence.
pub uninterp spec fn sha256_of(data: Seq<u8>) -> Seq<u8>;

/// Relies on `sha2::Sha256` through the `Digest` trait: the 32-byte SHA-256
/// digest of the input, a function of the input bytes alone.
#[verifier::external_body]
fn sha256(data: &Vec<u8>) -> (r: Vec<u8>)
    ensures
        r@ == sha256_of(data@),
        r@.len() == 32,
{
    let out = <sha2::Sha256 as sha2::Digest>::digest(data.as_slice());
    out.to_vec()
}

/// Lower-case hexadecimal rendering of a byte sequence, two digits per
/// byte.
pub open spec fn hex_of_bytes(data: Seq<u8>) -> Seq<char>
    decreases data.len(),
{
    if data.len() == 0 {
        Seq::<char>::empty()
    } else {
        hex_of_bytes(data.drop_last()).push(hex_char((data.last() / 16) as int)).push(
            hex_char((data.last() % 16) as int),
        )
    }
}

pub fn bytes_to_hex(data: &Vec<u8>) -> (r: String)
    ensures
        r@ == hex_of_bytes(data@),
{
    let mut r = String::new();
    let mut i: usize = 0;
    while i < data.len()
        invariant
            0 <= i <= data@.len(),
            r@ == hex_of_bytes(data@.take(i as int)),
        decreases data@.len() - i,
    {
        proof {
            assert(data@.take(i + 1).drop_last() =~= data@.take(i as int));
            assert(data@.take(i + 1).last() == data@[i as int]);
        }
        let b = data[i];
        push_char(&mut r, crate::numfmt::hex_to_char((b / 16) as u64));
        push_char(&mut r, crate::numfmt::hex_to_char((b % 16) as u64));
        i = i + 1;
    }
    proof {
        assert(data@.take(data@.len() as int) =~= data@);
    }
    r
}

/// The file paths joined with a `|` separator.
pub open spec fn joined_paths(fs: Seq<FileModel>) -> Seq<char>
    decreases fs.len(),
{
    if fs.len() == 0 {
        Seq::<char>::empty()
    } else if fs.len() == 1 {
        fs[0].path
    } else {
        joined_paths(fs.drop_last()) + "|"@ + fs.last().path
    }
}

/// The bytes an entry's fingerprint is computed over: the UTF-8 encoding of
/// textual content, the raw bytes of images and custom payloads, and the
/// joined paths of a file list.
pub open spec fn hash_input(c: ContentModel) -> Seq<u8> {
    match c {
        ContentModel::Text(t) => encode_utf8(t),
        ContentModel::Html(t) => encode_utf8(t),
        ContentModel::RichText(t) => encode_utf8(t),
        ContentModel::Image(img) => img.data,
        ContentModel::FileList(fs) => encode_utf8(joined_paths(fs)),
        ContentModel::Custom(_, d) => d,
    }
}

fn join_paths(fs: &Vec<crate::model::FileItem>) -> (r: String)
    ensures
        r@ == joined_paths(fs.deep_view()),
{
    let mut r = String::new();
    let mut i: usize = 0;
    while i < fs.len()
        invariant
            0 <= i <= fs@.len(),
            fs.deep_view().len() == fs@.len(),
            r@ == joined_paths(fs.deep_view().take(i as int)),
        decreases fs@.len() - i,
    {
        proof {
            assert(fs.deep_view()[i as int] == fs@[i as int].deep_view());
            assert(fs.deep_view().take(i + 1).drop_last() =~= fs.deep_view().take(i as int));
            assert(fs.deep_view().take(i + 1).last() == fs.deep_view()[i as int]);
            if i == 0 {
                assert(fs.deep_view().take(1)[0] == fs.deep_view()[0]);
            }
        }
        if i > 0 {
            r.append("|");
        }
        r.append(fs[i].path.as_str());
        i = i + 1;
    }
    proof {
        assert(fs.deep_view().take(fs@.len() as int) =~= fs.deep_view());
    }
    r
}

pub proof fn lemma_hex_of_bytes_len(data: Seq<u8>)
    ensures
        hex_of_bytes(data).len() == 2 * data.len(),
    decreases data.len(),
{
    if data.len() > 0 {
        lemma_hex_of_bytes_len(data.drop_last());
    }
}

/// The SHA-256 fingerprint of an entry's payload: 64 lower-case
/// hexadecimal digits.
pub fn content_hash(content: &ClipboardContent) -> (r: String)
    ensures
        r@ == hex_of_bytes(sha256_of(hash_input(content@))),
        r@.len() == 64,
{
    let bytes: Vec<u8> = match content {
        ClipboardContent::Text(t) => t.as_str().as_bytes_vec(),
        ClipboardContent::Html(t) => t.as_str().as_bytes_vec(),
        ClipboardContent::RichText(t) => t.as_str().as_bytes_vec(),
        ClipboardContent::Image(img) => crate::model::clone_bytes(&img.data),
        ClipboardContent::FileList(fs) => {
            let joined = join_paths(fs);
            joined.as_str().as_bytes_vec()
        },
        ClipboardContent::Custom(_, d) => crate::model::clone_bytes(d),
    };
    let digest = sha256(&bytes);
    proof {
        lemma_hex_of_bytes_len(digest@);
    }
    bytes_to_hex(&digest)
}

} // verus!
