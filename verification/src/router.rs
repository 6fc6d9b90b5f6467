//! Asset router: maps an HTTP request path to one of three outcomes, in
//! priority order — the generated configuration script, a file lookup under
//! one of the mounted roots, or the single-page-application fallback
//! document. A failed file lookup is downgraded to the fallback document with
//! status 200, never to a client-visible error. Relative paths holding a
//! `..` pair are refused (routed to the fallback) so a lookup can never
//! escape its mounted root.
use crate::bytes::{bytes_eq, push_all, rfind, rfind_byte, starts_with, tail_vec};
use crate::port::SLASH;
use vstd::prelude::*;

verus! {

/// ASCII '.'
pub const DOT: u8 = 46;

/// `"/config.js"` as bytes.
pub open spec fn config_path() -> Seq<u8> {
    seq![47u8, 99u8, 111u8, 110u8, 102u8, 105u8, 103u8, 46u8, 106u8, 115u8]
}

/// `"/src"` as bytes.
pub open spec fn src_mount() -> Seq<u8> {
    seq![47u8, 115u8, 114u8, 99u8]
}

/// `"/src/"` as bytes.
pub open spec fn src_prefix() -> Seq<u8> {
    seq![47u8, 115u8, 114u8, 99u8, 47u8]
}

/// `"/programs"` as bytes.
pub open spec fn programs_mount() -> Seq<u8> {
    seq![47u8, 112u8, 114u8, 111u8, 103u8, 114u8, 97u8, 109u8, 115u8]
}

/// `"/programs/"` as bytes.
pub open spec fn programs_prefix() -> Seq<u8> {
    seq![47u8, 112u8, 114u8, 111u8, 103u8, 114u8, 97u8, 109u8, 115u8, 47u8]
}

/// `"programs/"` as bytes: where the programs root lives inside the primary
/// asset root.
pub open spec fn programs_segment() -> Seq<u8> {
    seq![112u8, 114u8, 111u8, 103u8, 114u8, 97u8, 109u8, 115u8, 47u8]
}

/// `"src/"` as bytes: the primary asset root, relative to the working
/// directory.
pub open spec fn src_dir() -> Seq<u8> {
    seq![115u8, 114u8, 99u8, 47u8]
}

/// `"index.html"` as bytes.
pub open spec fn index_doc() -> Seq<u8> {
    seq![105u8, 110u8, 100u8, 101u8, 120u8, 46u8, 104u8, 116u8, 109u8, 108u8]
}

/// `"src/scaffold/index.html"` as bytes: the fallback entry document,
/// relative to the working directory.
pub open spec fn fallback_doc_path() -> Seq<u8> {
    src_dir() + seq![115u8, 99u8, 97u8, 102u8, 102u8, 111u8, 108u8, 100u8, 47u8] + index_doc()
}

/// `"window.__BACKEND_URL__ = \""` as bytes: what precedes the backend URL
/// in the generated configuration script.
pub open spec fn config_js_prefix() -> Seq<u8> {
    seq![
        119u8,
        105u8,
        110u8,
        100u8,
        111u8,
        119u8,
        46u8,
        95u8,
        95u8,
        66u8,
        65u8,
        67u8,
        75u8,
        69u8,
        78u8,
        68u8,
        95u8,
        85u8,
        82u8,
        76u8,
        95u8,
        95u8,
        32u8,
        61u8,
        32u8,
        34u8,
    ]
}

/// `"\";"` as bytes: what follows the backend URL in the generated
/// configuration script.
pub open spec fn config_js_suffix() -> Seq<u8> {
    seq![34u8, 59u8]
}

/// The body of the generated configuration script: the backend URL assigned
/// verbatim to a well-known global variable.
pub open spec fn config_body_spec(backend: Seq<u8>) -> Seq<u8> {
    config_js_prefix() + backend + config_js_suffix()
}

/// Whether `s` holds two adjacent dots anywhere. Used as a conservative
/// containment check: such a relative path could climb out of its root.
pub open spec fn has_dotdot(s: Seq<u8>) -> bool {
    exists|i: int| 0 <= i < s.len() - 1 && #[trigger] s[i] == DOT && s[i + 1] == DOT
}

/// The extension of a relative path: what follows the last dot, provided
/// that dot comes after the last slash; empty otherwise.
pub open spec fn ext_of(rel: Seq<u8>) -> Seq<u8> {
    match rfind(rel, DOT) {
        None => Seq::empty(),
        Some(d) => match rfind(rel, SLASH) {
            Some(sl) => if sl < d {
                rel.skip(d + 1)
            } else {
                Seq::empty()
            },
            None => rel.skip(d + 1),
        },
    }
}

#[derive(Clone, Copy, PartialEq, Eq, Structural, Debug)]
pub enum ContentType {
    JavaScript,
    Html,
    Css,
    Json,
    Png,
    Jpeg,
    Svg,
    Icon,
    Wasm,
    OctetStream,
}

/// Content type inferred from a file extension; unknown extensions are
/// served as opaque bytes.
pub open spec fn mime_of_ext(e: Seq<u8>) -> ContentType {
    if e == seq![106u8, 115u8] || e == seq![109u8, 106u8, 115u8] {
        // "js", "mjs"
        ContentType::JavaScript
    } else if e == seq![104u8, 116u8, 109u8, 108u8] || e == seq![104u8, 116u8, 109u8] {
        // "html", "htm"
        ContentType::Html
    } else if e == seq![99u8, 115u8, 115u8] {
        // "css"
        ContentType::Css
    } else if e == seq![106u8, 115u8, 111u8, 110u8] {
        // "json"
        ContentType::Json
    } else if e == seq![112u8, 110u8, 103u8] {
        // "png"
        ContentType::Png
    } else if e == seq![106u8, 112u8, 103u8] || e == seq![106u8, 112u8, 101u8, 103u8] {
        // "jpg", "jpeg"
        ContentType::Jpeg
    } else if e == seq![115u8, 118u8, 103u8] {
        // "svg"
        ContentType::Svg
    } else if e == seq![105u8, 99u8, 111u8] {
        // "ico"
        ContentType::Icon
    } else if e == seq![119u8, 97u8, 115u8, 109u8] {
        // "wasm"
        ContentType::Wasm
    } else {
        ContentType::OctetStream
    }
}

/// The textual label of a content type, e.g. `"text/html"`.
pub open spec fn mime_label_spec(ct: ContentType) -> Seq<u8> {
    match ct {
        // "application/javascript"
        ContentType::JavaScript => seq![
            97u8,
            112u8,
            112u8,
            108u8,
            105u8,
            99u8,
            97u8,
            116u8,
            105u8,
            111u8,
            110u8,
            47u8,
            106u8,
            97u8,
            118u8,
            97u8,
            115u8,
            99u8,
            114u8,
            105u8,
            112u8,
            116u8,
        ],
        // "text/html"
        ContentType::Html => seq![116u8, 101u8, 120u8, 116u8, 47u8, 104u8, 116u8, 109u8, 108u8],
        // "text/css"
        ContentType::Css => seq![116u8, 101u8, 120u8, 116u8, 47u8, 99u8, 115u8, 115u8],
        // "application/json"
        ContentType::Json => seq![
            97u8,
            112u8,
            112u8,
            108u8,
            105u8,
            99u8,
            97u8,
            116u8,
            105u8,
            111u8,
            110u8,
            47u8,
            106u8,
            115u8,
            111u8,
            110u8,
        ],
        // "image/png"
        ContentType::Png => seq![105u8, 109u8, 97u8, 103u8, 101u8, 47u8, 112u8, 110u8, 103u8],
        // "image/jpeg"
        ContentType::Jpeg => seq![
            105u8,
            109u8,
            97u8,
            103u8,
            101u8,
            47u8,
            106u8,
            112u8,
            101u8,
            103u8,
        ],
        // "image/svg+xml"
        ContentType::Svg => seq![
            105u8,
            109u8,
            97u8,
            103u8,
            101u8,
            47u8,
            115u8,
            118u8,
            103u8,
            43u8,
            120u8,
            109u8,
            108u8,
        ],
        // "image/x-icon"
        ContentType::Icon => seq![
            105u8,
            109u8,
            97u8,
            103u8,
            101u8,
            47u8,
            120u8,
            45u8,
            105u8,
            99u8,
            111u8,
            110u8,
        ],
        // "application/wasm"
        ContentType::Wasm => seq![
            97u8,
            112u8,
            112u8,
            108u8,
            105u8,
            99u8,
            97u8,
            116u8,
            105u8,
            111u8,
            110u8,
            47u8,
            119u8,
            97u8,
            115u8,
            109u8,
        ],
        // "application/octet-stream"
        ContentType::OctetStream => seq![
            97u8,
            112u8,
            112u8,
            108u8,
            105u8,
            99u8,
            97u8,
            116u8,
            105u8,
            111u8,
            110u8,
            47u8,
            111u8,
            99u8,
            116u8,
            101u8,
            116u8,
            45u8,
            115u8,
            116u8,
            114u8,
            101u8,
            97u8,
            109u8,
        ],
    }
}

/// A mounted asset root: the primary root, or its programs subdirectory.
#[derive(Clone, Copy, PartialEq, Eq, Structural, Debug)]
pub enum Root {
    Src,
    Programs,
}

/// The directory on disk that a root stands for, relative to the working
/// directory; the programs root is a subdirectory of the primary root.
pub open spec fn physical_spec(root: Root, rel: Seq<u8>) -> Seq<u8> {
    match root {
        Root::Src => src_dir() + rel,
        Root::Programs => src_dir() + programs_segment() + rel,
    }
}

/// What the router decides for a path before any disk access: serve the
/// generated script, look a relative path up under a root, or serve the
/// fallback document outright.
#[derive(PartialEq, Eq, Debug)]
pub enum RouteStep {
    Config,
    File(Root, Vec<u8>),
    Fallback,
}

#[verifier::ext_equal]
pub enum RouteStepSpec {
    Config,
    File(Root, Seq<u8>),
    Fallback,
}

impl View for RouteStep {
    type V = RouteStepSpec;

    open spec fn view(&self) -> RouteStepSpec {
        match self {
            RouteStep::Config => RouteStepSpec::Config,
            RouteStep::File(root, rel) => RouteStepSpec::File(*root, rel@),
            RouteStep::Fallback => RouteStepSpec::Fallback,
        }
    }
}

/// Resolution order, first match wins: the exact configuration-script path;
/// the primary root under `/src`; its programs subdirectory under
/// `/programs`; everything else (including contained `..` pairs) falls back.
pub open spec fn route_spec(p: Seq<u8>) -> RouteStepSpec {
    if p == config_path() {
        RouteStepSpec::Config
    } else if p == src_mount() {
        RouteStepSpec::File(Root::Src, Seq::empty())
    } else if src_prefix().is_prefix_of(p) {
        if !has_dotdot(p.skip(src_prefix().len() as int)) {
            RouteStepSpec::File(Root::Src, p.skip(src_prefix().len() as int))
        } else {
            RouteStepSpec::Fallback
        }
    } else if p == programs_mount() {
        RouteStepSpec::File(Root::Programs, Seq::empty())
    } else if programs_prefix().is_prefix_of(p) {
        if !has_dotdot(p.skip(programs_prefix().len() as int)) {
            RouteStepSpec::File(Root::Programs, p.skip(programs_prefix().len() as int))
        } else {
            RouteStepSpec::Fallback
        }
    } else {
        RouteStepSpec::Fallback
    }
}

/// An HTTP response as the router shapes it: a status, a content type, and
/// the body bytes. Every response the router produces has status 200.
#[derive(PartialEq, Eq, Debug)]
pub struct HttpResponse {
    pub status: u16,
    pub content_type: ContentType,
    pub body: Vec<u8>,
}

#[verifier::ext_equal]
pub struct ResponseSpec {
    pub status: int,
    pub content_type: ContentType,
    pub body: Seq<u8>,
}

impl View for HttpResponse {
    type V = ResponseSpec;

    open spec fn view(&self) -> ResponseSpec {
        ResponseSpec { status: self.status as int, content_type: self.content_type, body: self.body@ }
    }
}

pub open spec fn config_response_spec(backend: Seq<u8>) -> ResponseSpec {
    ResponseSpec {
        status: 200,
        content_type: ContentType::JavaScript,
        body: config_body_spec(backend),
    }
}

pub open spec fn found_response_spec(rel: Seq<u8>, bytes: Seq<u8>) -> ResponseSpec {
    ResponseSpec { status: 200, content_type: mime_of_ext(ext_of(rel)), body: bytes }
}

pub open spec fn fallback_response_spec(doc: Seq<u8>) -> ResponseSpec {
    ResponseSpec { status: 200, content_type: ContentType::Html, body: doc }
}

/// The response owed for a routing decision, given what the disk lookup
/// found (`None` both for a miss and for decisions that need no lookup):
/// the generated script for the configuration path, the file's bytes when
/// the lookup found them, and the fallback document for everything else.
pub open spec fn response_spec(
    step: RouteStepSpec,
    found: Option<Seq<u8>>,
    backend: Seq<u8>,
    doc: Seq<u8>,
) -> ResponseSpec {
    match step {
        RouteStepSpec::Config => config_response_spec(backend),
        RouteStepSpec::File(root, rel) => match found {
            Some(bytes) => found_response_spec(rel, bytes),
            None => fallback_response_spec(doc),
        },
        RouteStepSpec::Fallback => fallback_response_spec(doc),
    }
}

pub open spec fn opt_bytes_view(o: Option<Vec<u8>>) -> Option<Seq<u8>> {
    match o {
        Some(v) => Some(v@),
        None => None,
    }
}

/// A relative path with the index document appended: what a lookup should
/// try when the path on disk turns out to be a directory.
pub open spec fn with_index_doc(rel: Seq<u8>) -> Seq<u8> {
    if rel.len() == 0 {
        index_doc()
    } else if rel.last() == SLASH {
        rel + index_doc()
    } else {
        rel + seq![SLASH] + index_doc()
    }
}

fn config_path_vec() -> (r: Vec<u8>)
    ensures
        r@ == config_path(),
{
    let mut v: Vec<u8> = Vec::new();
    v.push(47);
    v.push(99);
    v.push(111);
    v.push(110);
    v.push(102);
    v.push(105);
    v.push(103);
    v.push(46);
    v.push(106);
    v.push(115);
    proof {
        assert(v@ =~= config_path());
    }
    v
}

fn src_mount_vec() -> (r: Vec<u8>)
    ensures
        r@ == src_mount(),
{
    let mut v: Vec<u8> = Vec::new();
    v.push(47);
    v.push(115);
    v.push(114);
    v.push(99);
    proof {
        assert(v@ =~= src_mount());
    }
    v
}

fn src_prefix_vec() -> (r: Vec<u8>)
    ensures
        r@ == src_prefix(),
{
    let mut v = src_mount_vec();
    v.push(47);
    proof {
        assert(v@ =~= src_prefix());
    }
    v
}

fn programs_mount_vec() -> (r: Vec<u8>)
    ensures
        r@ == programs_mount(),
{
    let mut v: Vec<u8> = Vec::new();
    v.push(47);
    v.push(112);
    v.push(114);
    v.push(111);
    v.push(103);
    v.push(114);
    v.push(97);
    v.push(109);
    v.push(115);
    proof {
        assert(v@ =~= programs_mount());
    }
    v
}

fn programs_prefix_vec() -> (r: Vec<u8>)
    ensures
        r@ == programs_prefix(),
{
    let mut v = programs_mount_vec();
    v.push(47);
    proof {
        assert(v@ =~= programs_prefix());
    }
    v
}

fn src_dir_vec() -> (r: Vec<u8>)
    ensures
        r@ == src_dir(),
{
    let mut v: Vec<u8> = Vec::new();
    v.push(115);
    v.push(114);
    v.push(99);
    v.push(47);
    proof {
        assert(v@ =~= src_dir());
    }
    v
}

fn programs_segment_vec() -> (r: Vec<u8>)
    ensures
        r@ == programs_segment(),
{
    let mut v: Vec<u8> = Vec::new();
    v.push(112);
    v.push(114);
    v.push(111);
    v.push(103);
    v.push(114);
    v.push(97);
    v.push(109);
    v.push(115);
    v.push(47);
    proof {
        assert(v@ =~= programs_segment());
    }
    v
}

fn index_doc_vec() -> (r: Vec<u8>)
    ensures
        r@ == index_doc(),
{
    let mut v: Vec<u8> = Vec::new();
    v.push(105);
    v.push(110);
    v.push(100);
    v.push(101);
    v.push(120);
    v.push(46);
    v.push(104);
    v.push(116);
    v.push(109);
    v.push(108);
    proof {
        assert(v@ =~= index_doc());
    }
    v
}

/// Builds the on-disk path of the fallback entry document.
pub fn fallback_doc_path_vec() -> (r: Vec<u8>)
    ensures
        r@ == fallback_doc_path(),
{
    let mut v = src_dir_vec();
    v.push(115);
    v.push(99);
    v.push(97);
    v.push(102);
    v.push(102);
    v.push(111);
    v.push(108);
    v.push(100);
    v.push(47);
    let idx = index_doc_vec();
    push_all(&mut v, idx.as_slice());
    proof {
        assert(v@ =~= fallback_doc_path());
    }
    v
}

fn config_js_prefix_vec() -> (r: Vec<u8>)
    ensures
        r@ == config_js_prefix(),
{
    let mut v: Vec<u8> = Vec::new();
    v.push(119);
    v.push(105);
    v.push(110);
    v.push(100);
    v.push(111);
    v.push(119);
    v.push(46);
    v.push(95);
    v.push(95);
    v.push(66);
    v.push(65);
    v.push(67);
    v.push(75);
    v.push(69);
    v.push(78);
    v.push(68);
    v.push(95);
    v.push(85);
    v.push(82);
    v.push(76);
    v.push(95);
    v.push(95);
    v.push(32);
    v.push(61);
    v.push(32);
    v.push(34);
    proof {
        assert(v@ =~= config_js_prefix());
    }
    v
}

/// The generated configuration script: the backend URL reflected verbatim
/// into an assignment to a well-known global variable.
pub fn config_js_body(backend: &[u8]) -> (r: Vec<u8>)
    ensures
        r@ == config_body_spec(backend@),
{
    let mut v = config_js_prefix_vec();
    push_all(&mut v, backend);
    v.push(34);
    v.push(59);
    proof {
        assert(v@ =~= config_body_spec(backend@));
    }
    v
}

/// Whether a relative path holds two adjacent dots.
pub fn contains_dotdot(s: &[u8]) -> (r: bool)
    ensures
        r == has_dotdot(s@),
{
    let n = s.len();
    if n < 2 {
        return false;
    }
    let mut i: usize = 0;
    while i < n - 1
        invariant
            2 <= n == s@.len(),
            i <= n - 1,
            forall|j: int| 0 <= j < i ==> !(#[trigger] s@[j] == DOT && s@[j + 1] == DOT),
        decreases n - i,
    {
        if s[i] == DOT && s[i + 1] == DOT {
            return true;
        }
        i = i + 1;
    }
    false
}

/// The extension of a relative path, as a fresh vector.
pub fn extension_of(rel: &[u8]) -> (r: Vec<u8>)
    ensures
        r@ == ext_of(rel@),
{
    let n = rel.len();
    match rfind_byte(rel, DOT) {
        None => Vec::new(),
        Some(d) => {
            assert(d < n);
            match rfind_byte(rel, SLASH) {
                Some(sl) => if sl < d {
                    tail_vec(rel, d + 1)
                } else {
                    Vec::new()
                },
                None => tail_vec(rel, d + 1),
            }
        },
    }
}

fn content_type_of_ext(e: &[u8]) -> (r: ContentType)
    ensures
        r == mime_of_ext(e@),
{
    let n = e.len();
    if n == 2 && e[0] == 106 && e[1] == 115 {
        assert(e@ =~= seq![106u8, 115u8]);
        ContentType::JavaScript
    } else if n == 3 && e[0] == 109 && e[1] == 106 && e[2] == 115 {
        assert(e@ =~= seq![109u8, 106u8, 115u8]);
        ContentType::JavaScript
    } else if n == 4 && e[0] == 104 && e[1] == 116 && e[2] == 109 && e[3] == 108 {
        assert(e@ =~= seq![104u8, 116u8, 109u8, 108u8]);
        ContentType::Html
    } else if n == 3 && e[0] == 104 && e[1] == 116 && e[2] == 109 {
        assert(e@ =~= seq![104u8, 116u8, 109u8]);
        ContentType::Html
    } else if n == 3 && e[0] == 99 && e[1] == 115 && e[2] == 115 {
        assert(e@ =~= seq![99u8, 115u8, 115u8]);
        ContentType::Css
    } else if n == 4 && e[0] == 106 && e[1] == 115 && e[2] == 111 && e[3] == 110 {
        assert(e@ =~= seq![106u8, 115u8, 111u8, 110u8]);
        ContentType::Json
    } else if n == 3 && e[0] == 112 && e[1] == 110 && e[2] == 103 {
        assert(e@ =~= seq![112u8, 110u8, 103u8]);
        ContentType::Png
    } else if n == 3 && e[0] == 106 && e[1] == 112 && e[2] == 103 {
        assert(e@ =~= seq![106u8, 112u8, 103u8]);
        ContentType::Jpeg
    } else if n == 4 && e[0] == 106 && e[1] == 112 && e[2] == 101 && e[3] == 103 {
        assert(e@ =~= seq![106u8, 112u8, 101u8, 103u8]);
        ContentType::Jpeg
    } else if n == 3 && e[0] == 115 && e[1] == 118 && e[2] == 103 {
        assert(e@ =~= seq![115u8, 118u8, 103u8]);
        ContentType::Svg
    } else if n == 3 && e[0] == 105 && e[1] == 99 && e[2] == 111 {
        assert(e@ =~= seq![105u8, 99u8, 111u8]);
        ContentType::Icon
    } else if n == 4 && e[0] == 119 && e[1] == 97 && e[2] == 115 && e[3] == 109 {
        assert(e@ =~= seq![119u8, 97u8, 115u8, 109u8]);
        ContentType::Wasm
    } else {
        ContentType::OctetStream
    }
}

/// Content type for a relative path, inferred from its extension.
pub fn content_type_for(rel: &[u8]) -> (r: ContentType)
    ensures
        r == mime_of_ext(ext_of(rel@)),
{
    let e = extension_of(rel);
    content_type_of_ext(e.as_slice())
}

/// The textual label of a content type, for a response header.
pub fn mime_label(ct: ContentType) -> (r: Vec<u8>)
    ensures
        r@ == mime_label_spec(ct),
{
    let mut v: Vec<u8> = Vec::new();
    match ct {
        ContentType::JavaScript => {
            v.push(97);
            v.push(112);
            v.push(112);
            v.push(108);
            v.push(105);
            v.push(99);
            v.push(97);
            v.push(116);
            v.push(105);
            v.push(111);
            v.push(110);
            v.push(47);
            v.push(106);
            v.push(97);
            v.push(118);
            v.push(97);
            v.push(115);
            v.push(99);
            v.push(114);
            v.push(105);
            v.push(112);
            v.push(116);
        },
        ContentType::Html => {
            v.push(116);
            v.push(101);
            v.push(120);
            v.push(116);
            v.push(47);
            v.push(104);
            v.push(116);
            v.push(109);
            v.push(108);
        },
        ContentType::Css => {
            v.push(116);
            v.push(101);
            v.push(120);
            v.push(116);
            v.push(47);
            v.push(99);
            v.push(115);
            v.push(115);
        },
        ContentType::Json => {
            v.push(97);
            v.push(112);
            v.push(112);
            v.push(108);
            v.push(105);
            v.push(99);
            v.push(97);
            v.push(116);
            v.push(105);
            v.push(111);
            v.push(110);
            v.push(47);
            v.push(106);
            v.push(115);
            v.push(111);
            v.push(110);
        },
        ContentType::Png => {
            v.push(105);
            v.push(109);
            v.push(97);
            v.push(103);
            v.push(101);
            v.push(47);
            v.push(112);
            v.push(110);
            v.push(103);
        },
        ContentType::Jpeg => {
            v.push(105);
            v.push(109);
            v.push(97);
            v.push(103);
            v.push(101);
            v.push(47);
            v.push(106);
            v.push(112);
            v.push(101);
            v.push(103);
        },
        ContentType::Svg => {
            v.push(105);
            v.push(109);
            v.push(97);
            v.push(103);
            v.push(101);
            v.push(47);
            v.push(115);
            v.push(118);
            v.push(103);
            v.push(43);
            v.push(120);
            v.push(109);
            v.push(108);
        },
        ContentType::Icon => {
            v.push(105);
            v.push(109);
            v.push(97);
            v.push(103);
            v.push(101);
            v.push(47);
            v.push(120);
            v.push(45);
            v.push(105);
            v.push(99);
            v.push(111);
            v.push(110);
        },
        ContentType::Wasm => {
            v.push(97);
            v.push(112);
            v.push(112);
            v.push(108);
            v.push(105);
            v.push(99);
            v.push(97);
            v.push(116);
            v.push(105);
            v.push(111);
            v.push(110);
            v.push(47);
            v.push(119);
            v.push(97);
            v.push(115);
            v.push(109);
        },
        ContentType::OctetStream => {
            v.push(97);
            v.push(112);
            v.push(112);
            v.push(108);
            v.push(105);
            v.push(99);
            v.push(97);
            v.push(116);
            v.push(105);
            v.push(111);
            v.push(110);
            v.push(47);
            v.push(111);
            v.push(99);
            v.push(116);
            v.push(101);
            v.push(116);
            v.push(45);
            v.push(115);
            v.push(116);
            v.push(114);
            v.push(101);
            v.push(97);
            v.push(109);
        },
    }
    proof {
        assert(v@ =~= mime_label_spec(ct));
    }
    v
}

/// Routes a request path: first match wins, and a path it cannot serve from
/// a root is handed to the fallback.
pub fn route(path: &[u8]) -> (r: RouteStep)
    ensures
        r@ == route_spec(path@),
{
    let cfg = config_path_vec();
    if bytes_eq(path, cfg.as_slice()) {
        return RouteStep::Config;
    }
    let srcm = src_mount_vec();
    if bytes_eq(path, srcm.as_slice()) {
        return RouteStep::File(Root::Src, Vec::new());
    }
    let srcp = src_prefix_vec();
    if starts_with(path, srcp.as_slice()) {
        let rel = tail_vec(path, 5);
        if contains_dotdot(rel.as_slice()) {
            return RouteStep::Fallback;
        }
        return RouteStep::File(Root::Src, rel);
    }
    let prgm = programs_mount_vec();
    if bytes_eq(path, prgm.as_slice()) {
        return RouteStep::File(Root::Programs, Vec::new());
    }
    let prgp = programs_prefix_vec();
    if starts_with(path, prgp.as_slice()) {
        let rel = tail_vec(path, 10);
        if contains_dotdot(rel.as_slice()) {
            return RouteStep::Fallback;
        }
        return RouteStep::File(Root::Programs, rel);
    }
    RouteStep::Fallback
}

/// The directory-relative disk path that a root and relative path stand for.
pub fn physical_path(root: Root, rel: &[u8]) -> (r: Vec<u8>)
    ensures
        r@ == physical_spec(root, rel@),
{
    let mut v = src_dir_vec();
    match root {
        Root::Src => {},
        Root::Programs => {
            let seg = programs_segment_vec();
            push_all(&mut v, seg.as_slice());
        },
    }
    push_all(&mut v, rel);
    proof {
        assert(v@ =~= physical_spec(root, rel@));
    }
    v
}

/// A relative path with the index document appended, for directory lookups.
pub fn with_index(rel: &[u8]) -> (r: Vec<u8>)
    ensures
        r@ == with_index_doc(rel@),
{
    let mut v: Vec<u8> = Vec::new();
    push_all(&mut v, rel);
    if rel.len() > 0 && rel[rel.len() - 1] != SLASH {
        v.push(SLASH);
    }
    let idx = index_doc_vec();
    push_all(&mut v, idx.as_slice());
    proof {
        assert(v@ =~= with_index_doc(rel@));
    }
    v
}

/// The response for the configuration-script path.
pub fn respond_config(backend: &[u8]) -> (r: HttpResponse)
    ensures
        r@ == config_response_spec(backend@),
{
    let body = config_js_body(backend);
    let r = HttpResponse { status: 200, content_type: ContentType::JavaScript, body };
    proof {
        assert(r@ =~= config_response_spec(backend@));
    }
    r
}

/// The response for a file found on disk: its bytes unchanged, status 200,
/// content type from the relative path's extension.
pub fn respond_found(rel: &[u8], bytes: Vec<u8>) -> (r: HttpResponse)
    ensures
        r@ == found_response_spec(rel@, bytes@),
{
    let ct = content_type_for(rel);
    let r = HttpResponse { status: 200, content_type: ct, body: bytes };
    proof {
        assert(r@ =~= found_response_spec(rel@, bytes@));
    }
    r
}

/// The fallback response: the entry document, status 200.
pub fn respond_fallback(doc: &[u8]) -> (r: HttpResponse)
    ensures
        r@ == fallback_response_spec(doc@),
{
    let body = tail_vec(doc, 0);
    let r = HttpResponse { status: 200, content_type: ContentType::Html, body };
    proof {
        assert(doc@.skip(0) =~= doc@);
        assert(r@ =~= fallback_response_spec(doc@));
    }
    r
}

/// The response owed for a routing decision and a disk lookup's outcome.
pub fn respond(
    step: &RouteStep,
    found: Option<Vec<u8>>,
    backend: &[u8],
    fallback_doc: &[u8],
) -> (r: HttpResponse)
    ensures
        r@ == response_spec(step@, opt_bytes_view(found), backend@, fallback_doc@),
{
    match step {
        RouteStep::Config => respond_config(backend),
        RouteStep::File(_root, rel) => match found {
            Some(bytes) => respond_found(rel.as_slice(), bytes),
            None => respond_fallback(fallback_doc),
        },
        RouteStep::Fallback => respond_fallback(fallback_doc),
    }
}

/// Whether a routing decision together with a lookup outcome missed: the
/// path matched no mount, or it matched one and the disk had nothing there.
pub open spec fn lookup_missed(step: RouteStepSpec, found: Option<Seq<u8>>) -> bool {
    match step {
        RouteStepSpec::Config => false,
        RouteStepSpec::File(_root, _rel) => found is None,
        RouteStepSpec::Fallback => true,
    }
}

/// The configuration-script path is always served with status 200 and a body
/// that carries the configured backend URL verbatim, whatever any disk
/// lookup might have said.
pub proof fn lemma_config_always_served(found: Option<Seq<u8>>, backend: Seq<u8>, doc: Seq<u8>)
    ensures
        ({
            let r = response_spec(route_spec(config_path()), found, backend, doc);
            &&& r.status == 200
            &&& r.content_type == ContentType::JavaScript
            &&& r.body == config_body_spec(backend)
            &&& r.body.subrange(
                config_js_prefix().len() as int,
                config_js_prefix().len() + backend.len() as int,
            ) == backend
        }),
{
    assert(route_spec(config_path()) == RouteStepSpec::Config);
    assert(config_body_spec(backend).subrange(
        config_js_prefix().len() as int,
        config_js_prefix().len() + backend.len() as int,
    ) =~= backend);
}

/// Unmatched requests are indistinguishable: any two paths whose resolution
/// missed — whether they matched no mount at all or their file was absent —
/// get the one fallback response, the entry document with status 200.
pub proof fn lemma_unmatched_indistinguishable(
    p1: Seq<u8>,
    p2: Seq<u8>,
    f1: Option<Seq<u8>>,
    f2: Option<Seq<u8>>,
    backend: Seq<u8>,
    doc: Seq<u8>,
)
    requires
        lookup_missed(route_spec(p1), f1),
        lookup_missed(route_spec(p2), f2),
    ensures
        response_spec(route_spec(p1), f1, backend, doc) == response_spec(
            route_spec(p2),
            f2,
            backend,
            doc,
        ),
        response_spec(route_spec(p1), f1, backend, doc) == fallback_response_spec(doc),
{
}

/// Prefixing with a dot-free segment neither hides nor creates a `..` pair.
pub proof fn lemma_dotdot_prefixed(pre: Seq<u8>, x: Seq<u8>)
    requires
        forall|i: int| 0 <= i < pre.len() ==> pre[i] != DOT,
    ensures
        has_dotdot(pre + x) == has_dotdot(x),
{
    let s = pre + x;
    if has_dotdot(x) {
        let i = choose|i: int| 0 <= i < x.len() - 1 && #[trigger] x[i] == DOT && x[i + 1] == DOT;
        assert(s[pre.len() + i] == DOT);
        assert(s[pre.len() + i + 1] == DOT);
        assert(has_dotdot(s));
    }
    if has_dotdot(s) {
        let i = choose|i: int| 0 <= i < s.len() - 1 && #[trigger] s[i] == DOT && s[i + 1] == DOT;
        assert(i >= pre.len());
        assert(x[i - pre.len()] == DOT);
        assert(x[i - pre.len() + 1] == DOT);
        assert(has_dotdot(x));
    }
}

/// Prefixing with a dot-free segment that ends in a slash leaves the
/// extension unchanged.
pub proof fn lemma_ext_prefixed(pre: Seq<u8>, x: Seq<u8>)
    requires
        forall|i: int| 0 <= i < pre.len() ==> pre[i] != DOT,
        pre.len() > 0,
        pre.last() == SLASH,
    ensures
        ext_of(pre + x) == ext_of(x),
{
    let s = pre + x;
    crate::bytes::lemma_rfind_none(pre, DOT);
    crate::bytes::lemma_rfind_concat(pre, x, DOT);
    crate::bytes::lemma_rfind_concat(pre, x, SLASH);
    crate::bytes::lemma_rfind_some(pre, SLASH, pre.len() - 1);
    match rfind(x, DOT) {
        None => {
            assert(rfind(s, DOT) is None);
        },
        Some(d) => {
            crate::bytes::lemma_rfind_is_hit(x, DOT, d);
            assert(rfind(s, DOT) == Some(pre.len() + d));
            assert(s.skip(pre.len() + d + 1) =~= x.skip(d + 1));
            match rfind(x, SLASH) {
                None => {
                    assert(rfind(s, SLASH) == Some(pre.len() - 1));
                },
                Some(sl) => {
                    crate::bytes::lemma_rfind_is_hit(x, SLASH, sl);
                    assert(rfind(s, SLASH) == Some(pre.len() + sl));
                },
            }
        },
    }
}

/// No client-visible error exists: whatever the path and whatever the disk
/// lookup said, the router's response carries status 200.
pub proof fn lemma_every_response_is_200(
    p: Seq<u8>,
    found: Option<Seq<u8>>,
    backend: Seq<u8>,
    doc: Seq<u8>,
)
    ensures
        response_spec(route_spec(p), found, backend, doc).status == 200,
{
}

/// Containment: a lookup the router hands out never holds a `..` pair, so it
/// cannot name a file above its mounted root.
pub proof fn lemma_routed_lookup_is_contained(p: Seq<u8>, root: Root, rel: Seq<u8>)
    requires
        route_spec(p) == RouteStepSpec::File(root, rel),
    ensures
        !has_dotdot(rel),
{
}

/// The aliasing law: a file reachable both as `/src/programs/<x>` and as
/// `/programs/<x>` resolves through either path to the same physical file,
/// and — given the same bytes on disk — to byte-identical responses with the
/// same content type.
pub proof fn lemma_alias_identical(x: Seq<u8>, bytes: Seq<u8>, backend: Seq<u8>, doc: Seq<u8>)
    requires
        !has_dotdot(x),
    ensures
        ({
            let p1 = src_prefix() + programs_segment() + x;
            let p2 = programs_prefix() + x;
            &&& route_spec(p1) == RouteStepSpec::File(Root::Src, programs_segment() + x)
            &&& route_spec(p2) == RouteStepSpec::File(Root::Programs, x)
            &&& physical_spec(Root::Src, programs_segment() + x) == physical_spec(
                Root::Programs,
                x,
            )
            &&& response_spec(route_spec(p1), Some(bytes), backend, doc) == response_spec(
                route_spec(p2),
                Some(bytes),
                backend,
                doc,
            )
        }),
{
    let seg = programs_segment();
    let p1 = src_prefix() + seg + x;
    let p2 = programs_prefix() + x;
    let rel1 = seg + x;
    assert(forall|i: int| 0 <= i < seg.len() ==> seg[i] != DOT);
    lemma_dotdot_prefixed(seg, x);

    // p1 routes to the primary root with "programs/" kept in the relative path.
    assert(p1.len() == 14 + x.len());
    assert(p1[1] == 115);
    if p1 == config_path() {
        assert(p1[1] == config_path()[1]);
        assert(false);
    }
    if p1 == src_mount() {
        assert(false);
    }
    assert(p1.subrange(0, 5) =~= src_prefix());
    assert(src_prefix().is_prefix_of(p1));
    assert(p1.skip(5) =~= rel1);
    assert(route_spec(p1) == RouteStepSpec::File(Root::Src, p1.skip(5)));

    // p2 routes to the programs root.
    assert(p2.len() == 10 + x.len());
    assert(p2[1] == 112);
    if p2 == config_path() {
        assert(p2[1] == config_path()[1]);
        assert(false);
    }
    if p2 == src_mount() {
        assert(p2[1] == src_mount()[1]);
        assert(false);
    }
    if src_prefix().is_prefix_of(p2) {
        assert(p2.subrange(0, 5) =~= src_prefix());
        assert(p2[1] == src_prefix()[1]);
        assert(false);
    }
    if p2 == programs_mount() {
        assert(false);
    }
    assert(p2.subrange(0, 10) =~= programs_prefix());
    assert(programs_prefix().is_prefix_of(p2));
    assert(p2.skip(10) =~= x);
    assert(route_spec(p2) == RouteStepSpec::File(Root::Programs, p2.skip(10)));

    // Both name the same file on disk.
    assert(physical_spec(Root::Src, rel1) =~= physical_spec(Root::Programs, x));

    // Same extension, hence the same content type, hence equal responses.
    assert(seg.last() == SLASH);
    lemma_ext_prefixed(seg, x);
    assert(response_spec(route_spec(p1), Some(bytes), backend, doc) =~= response_spec(
        route_spec(p2),
        Some(bytes),
        backend,
        doc,
    ));
}

} // verus!
