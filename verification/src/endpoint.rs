//! The endpoint map: the routing table from a request path to its canned
//! response content, and the rules that build it from the command line.
//! Reading files and folders is the application shell's job; the shell
//! hands the texts it read to the functions here.

use vstd::prelude::*;
use crate::args::Arguments;
use crate::format::format_content_type;
use crate::format::ResponseFormat;
use crate::keyed::distinct_keys;
use crate::keyed::has_key;
use crate::keyed::key_find;
use crate::keyed::key_index;
use crate::keyed::lemma_key_index_unique;
use crate::ordmap::index_entries;
use crate::ordmap::map_get;
use crate::ordmap::map_insert;
use crate::ordmap::map_new;

verus! {

/// One endpoint's canned response: optional body text and the
/// content-type text to serve it under.
#[derive(Debug, Clone)]
pub struct EndpointContent {
    pub content: Option<String>,
    pub format: String,
}

/// Mathematical model of an [`EndpointContent`].
pub ghost struct EndpointContentModel {
    pub content: Option<Seq<char>>,
    pub format: Seq<char>,
}

impl View for EndpointContent {
    type V = EndpointContentModel;

    open spec fn view(&self) -> EndpointContentModel {
        EndpointContentModel {
            content: match self.content {
                Some(ref c) => Some(c@),
                None => None,
            },
            format: self.format@,
        }
    }
}

impl EndpointContent {
    /// The body text to serve: the content, or nothing.
    pub fn to_string(&self) -> (r: String)
        ensures
            r@ == match self@.content {
                Some(c) => c,
                None => Seq::<char>::empty(),
            },
    {
        match &self.content {
            Some(content) => content.clone(),
            None => String::new(),
        }
    }

    /// A copy whose model equals this content's.
    pub fn duplicate(&self) -> (r: EndpointContent)
        ensures
            r@ == self@,
    {
        EndpointContent {
            content: match &self.content {
                Some(c) => Some(c.clone()),
                None => None,
            },
            format: self.format.clone(),
        }
    }

    /// A response from literal text and a format.
    pub fn from_content(content: &str, response_format: &ResponseFormat) -> (r: EndpointContent)
        ensures
            r@ == (EndpointContentModel {
                content: Some(content@),
                format: format_content_type(*response_format),
            }),
    {
        EndpointContent { content: Some(content.to_owned()), format: response_format.to_string() }
    }

    /// A response from the text of a content file, where the shell could
    /// read one; a missing file leaves the body blank.
    pub fn from_file_text(text: Option<String>, response_format: &ResponseFormat) -> (r: EndpointContent)
        ensures
            r@ == (EndpointContentModel {
                content: match text {
                    Some(t) => Some(t@),
                    None => None,
                },
                format: format_content_type(*response_format),
            }),
    {
        EndpointContent { content: text, format: response_format.to_string() }
    }

    /// The response the parsed arguments call for: literal content first,
    /// then the content file whose text the shell hands in, then a blank
    /// body.
    pub fn from_args(args: &Arguments, file_text: Option<String>) -> (r: EndpointContent)
        ensures
            r@.format == format_content_type(args.format),
            r@.content == match args.content.content {
                Some(ref c) => Some(c@),
                None => match args.content.content_file {
                    Some(_) => match file_text {
                        Some(ref t) => Some(t@),
                        None => None::<Seq<char>>,
                    },
                    None => None::<Seq<char>>,
                },
            },
    {
        let response_format = &args.format;
        if let Some(content) = &args.content.content {
            EndpointContent::from_content(content.as_str(), response_format)
        } else if args.content.content_file.is_some() {
            EndpointContent::from_file_text(file_text, response_format)
        } else {
            EndpointContent { content: None, format: response_format.to_string() }
        }
    }
}

impl Default for EndpointContent {
    /// A blank response: no body and an empty content-type.
    fn default() -> (r: EndpointContent)
        ensures
            r@ == (EndpointContentModel { content: None, format: Seq::<char>::empty() }),
    {
        EndpointContent { content: None, format: String::new() }
    }
}

/// A folder of response files could not be used; the reason is carried as
/// text.
#[derive(Debug, Clone)]
pub struct FolderError {
    error: String,
}

impl FolderError {
    pub fn new(error: String) -> (r: FolderError)
        ensures
            r.message_spec() == error@,
    {
        FolderError { error }
    }

    /// What went wrong, in words.
    pub fn message(&self) -> (r: &str)
        ensures
            r@ == self.message_spec(),
    {
        self.error.as_str()
    }

    pub closed spec fn message_spec(&self) -> Seq<char> {
        self.error@
    }
}

/// `m` with `v` stored under `key`: an existing key keeps its place and
/// gets the new value, a new key is appended last.
pub open spec fn map_put(
    m: Seq<(Seq<char>, EndpointContentModel)>,
    key: Seq<char>,
    v: EndpointContentModel,
) -> Seq<(Seq<char>, EndpointContentModel)> {
    if has_key(m, key) {
        m.update(key_index(m, key), (key, v))
    } else {
        m.push((key, v))
    }
}

/// The routing table: request paths mapped to canned responses, keys kept
/// in insertion order.
#[derive(Debug)]
pub struct EndpointMap {
    index: indexmap::IndexMap<String, usize>,
    items: Vec<(String, EndpointContent)>,
}

impl View for EndpointMap {
    type V = Seq<(Seq<char>, EndpointContentModel)>;

    closed spec fn view(&self) -> Seq<(Seq<char>, EndpointContentModel)> {
        Seq::new(self.items@.len(), |i: int| (self.items@[i].0@, self.items@[i].1@))
    }
}

impl EndpointMap {
    /// The position index mirrors the item vector pairwise, and no path
    /// occurs twice.
    pub closed spec fn well_formed(&self) -> bool {
        &&& index_entries(self.index).len() == self.items@.len()
        &&& (forall|i: int|
            0 <= i < self.items@.len() ==> #[trigger] index_entries(self.index)[i].0
                == self.items@[i].0@ && index_entries(self.index)[i].1 as int == i)
        &&& distinct_keys(self@)
    }

    /// An empty routing table.
    pub fn new() -> (r: EndpointMap)
        ensures
            r.well_formed(),
            r@.len() == 0,
    {
        let r = EndpointMap { index: map_new(), items: Vec::new() };
        proof {
            assert(r@.len() == 0);
        }
        r
    }

    /// How many endpoints are mapped.
    pub fn len(&self) -> (r: usize)
        ensures
            r == self@.len(),
    {
        self.items.len()
    }

    /// Stores `content` under `path`: an existing path keeps its place and
    /// gets the new content, a new path is appended last in order.
    pub fn insert(&mut self, path: String, content: EndpointContent)
        requires
            old(self).well_formed(),
        ensures
            final(self).well_formed(),
            final(self)@ == map_put(old(self)@, path@, content@),
    {
        let ghost old_view = self@;
        match map_get(&self.index, &path) {
            Some(i) => {
                proof {
                    let j = choose|j: int|
                        0 <= j < index_entries(self.index).len() && index_entries(self.index)[j]
                            == (path@, i);
                    assert(0 <= j < index_entries(self.index).len());
                    assert(index_entries(self.index)[j] == (path@, i));
                    assert(index_entries(self.index)[j].0 == path@);
                    assert(index_entries(self.index)[j].1 == i);
                    assert(i as int == j);
                    lemma_key_index_unique(old_view, path@, i as int);
                }
                let slot = item_at(&mut self.items, i);
                slot.1 = content;
                proof {
                    assert(self@ =~= map_put(old_view, path@, content@));
                }
            },
            None => {
                proof {
                    assert forall|k: int| 0 <= k < old_view.len() implies old_view[k].0 != path@ by {
                        assert(index_entries(self.index)[k].0 == self.items@[k].0@);
                    }
                }
                let n = self.items.len();
                map_insert(&mut self.index, path.clone(), n);
                self.items.push((path, content));
                proof {
                    assert(self@ =~= map_put(old_view, path@, content@));
                }
            },
        }
    }

    /// The canned response stored under `path`, if the path is mapped.
    pub fn get(&self, path: &String) -> (r: Option<&EndpointContent>)
        requires
            self.well_formed(),
        ensures
            (match r {
                Some(c) => key_find(self@, path@) == Some(c@),
                None => key_find(self@, path@) is None,
            }),
    {
        match map_get(&self.index, path) {
            Some(i) => {
                proof {
                    let j = choose|j: int|
                        0 <= j < index_entries(self.index).len() && index_entries(self.index)[j]
                            == (path@, i);
                    assert(index_entries(self.index)[j] == (path@, i));
                    assert(index_entries(self.index)[j].0 == path@);
                    assert(index_entries(self.index)[j].1 == i);
                    assert(i as int == j);
                    lemma_key_index_unique(self@, path@, i as int);
                }
                let pair = &self.items[i];
                Some(&pair.1)
            },
            None => {
                proof {
                    assert forall|k: int| 0 <= k < self@.len() implies self@[k].0 != path@ by {
                        assert(index_entries(self.index)[k].0 == self.items@[k].0@);
                    }
                }
                None
            },
        }
    }

    /// The path and content at a position in insertion order.
    pub fn get_index(&self, i: usize) -> (r: Option<&(String, EndpointContent)>)
        ensures
            (match r {
                Some(p) => i < self@.len() && self@[i as int] == (p.0@, p.1@),
                None => i >= self@.len(),
            }),
    {
        if i < self.items.len() {
            Some(&self.items[i])
        } else {
            None
        }
    }
}

/// The position where the base name of a path starts: right after the
/// last slash.
pub open spec fn base_start(p: Seq<char>) -> nat
    decreases p.len(),
{
    if p.len() == 0 {
        0
    } else if p.last() == '/' {
        p.len()
    } else {
        base_start(p.drop_last())
    }
}

/// The position of the last dot in a name, `-1` where there is none.
pub open spec fn last_dot(b: Seq<char>) -> int
    decreases b.len(),
{
    if b.len() == 0 {
        -1
    } else if b.last() == '.' {
        b.len() - 1
    } else {
        last_dot(b.drop_last())
    }
}

/// A file name without its extension; a name whose only dot leads keeps
/// it.
pub open spec fn stem_of_base(b: Seq<char>) -> Seq<char> {
    if last_dot(b) > 0 {
        b.subrange(0, last_dot(b))
    } else {
        b
    }
}

/// The stem of the file a path points at: its base name without the
/// extension.
pub open spec fn file_stem_of(p: Seq<char>) -> Seq<char> {
    stem_of_base(p.subrange(base_start(p) as int, p.len() as int))
}

/// The endpoint a content file is served under: a slash followed by the
/// file's stem.
pub open spec fn endpoint_for(p: Seq<char>) -> Seq<char> {
    seq!['/'] + file_stem_of(p)
}

proof fn lemma_base_start_scan(p: Seq<char>, k: int)
    requires
        0 <= k <= p.len(),
        forall|j: int| k <= j < p.len() ==> p[j] != '/',
        k > 0 ==> p[k - 1] == '/',
    ensures
        base_start(p) == k,
    decreases p.len(),
{
    if p.len() == 0 {
    } else if p.last() == '/' {
        if k < p.len() {
            assert(p[p.len() - 1] != '/');
        }
    } else {
        if k == p.len() {
            assert(p[k - 1] == '/');
        }
        let d = p.drop_last();
        assert forall|j: int| k <= j < d.len() implies d[j] != '/' by {
            assert(d[j] == p[j]);
        }
        if k > 0 {
            assert(d[k - 1] == p[k - 1]);
        }
        lemma_base_start_scan(d, k);
    }
}

proof fn lemma_last_dot_scan(b: Seq<char>, k: int)
    requires
        -1 <= k < b.len(),
        forall|j: int| k < j < b.len() ==> b[j] != '.',
        k >= 0 ==> b[k] == '.',
    ensures
        last_dot(b) == k,
    decreases b.len(),
{
    if b.len() == 0 {
    } else if b.last() == '.' {
        if k < b.len() - 1 {
            assert(b[b.len() - 1] != '.');
        }
    } else {
        if k == b.len() - 1 {
            assert(b[k] == '.');
        }
        let d = b.drop_last();
        assert forall|j: int| k < j < d.len() implies d[j] != '.' by {
            assert(d[j] == b[j]);
        }
        if k >= 0 {
            assert(d[k] == b[k]);
        }
        lemma_last_dot_scan(d, k);
    }
}

/// The stem of the file a path points at: its base name without the
/// extension.
pub fn file_stem(p: &str) -> (r: String)
    ensures
        r@ == file_stem_of(p@),
{
    let n = p.unicode_len();
    let mut bs: usize = n;
    while bs > 0 && p.get_char(bs - 1) != '/'
        invariant
            0 <= bs <= n,
            n == p@.len(),
            forall|j: int| bs <= j < n ==> p@[j] != '/',
        decreases bs,
    {
        bs -= 1;
    }
    proof {
        lemma_base_start_scan(p@, bs as int);
    }
    let ghost base = p@.subrange(bs as int, n as int);
    let mut e: usize = n;
    while e > bs && p.get_char(e - 1) != '.'
        invariant
            bs <= e <= n,
            n == p@.len(),
            forall|j: int| e <= j < n ==> p@[j] != '.',
        decreases e,
    {
        e -= 1;
    }
    proof {
        assert forall|j: int| (e - bs) - 1 < j < base.len() implies base[j] != '.' by {
            assert(base[j] == p@[j + bs]);
        }
        if e > bs {
            assert(base[(e - bs) - 1] == p@[e - 1]);
        }
        lemma_last_dot_scan(base, (e - bs) - 1);
    }
    if e > bs && e - 1 - bs > 0 {
        let r = p.substring_char(bs, e - 1).to_owned();
        proof {
            assert(r@ =~= file_stem_of(p@));
        }
        r
    } else {
        let r = p.substring_char(bs, n).to_owned();
        proof {
            assert(r@ =~= file_stem_of(p@));
        }
        r
    }
}

/// The endpoint a content file is served under: a slash followed by the
/// file's stem.
pub fn endpoint_for_file(p: &str) -> (r: String)
    ensures
        r@ == endpoint_for(p@),
{
    let mut r = String::from_str("/");
    proof {
        reveal_strlit("/");
    }
    let stem = file_stem(p);
    r.append(stem.as_str());
    proof {
        assert(r@ =~= endpoint_for(p@));
    }
    r
}

/// Whether `s` ends with `suf`.
fn has_suffix(s: &str, suf: &str) -> (r: bool)
    ensures
        r == (s@.len() >= suf@.len() && s@.subrange(s@.len() - suf@.len(), s@.len() as int)
            == suf@),
{
    let n = s.unicode_len();
    let m = suf.unicode_len();
    if n < m {
        return false;
    }
    let mut i: usize = 0;
    while i < m
        invariant
            0 <= i <= m <= n,
            n == s@.len(),
            m == suf@.len(),
            forall|j: int| 0 <= j < i ==> s@[n - m + j] == suf@[j],
        decreases m - i,
    {
        if s.get_char(n - m + i) != suf.get_char(i) {
            assert(s@.subrange(n as int - m, n as int)[i as int] != suf@[i as int]);
            return false;
        }
        i += 1;
    }
    proof {
        assert(s@.subrange(n as int - m, n as int) =~= suf@);
    }
    true
}

/// What a folder file stands for: its stem and format where its name ends
/// in a known extension over a non-empty stem, nothing otherwise.
pub open spec fn classify_name(name: Seq<char>) -> Option<(Seq<char>, ResponseFormat)> {
    if name.len() > 5 && name.subrange(name.len() - 5, name.len() as int) == ".json"@ {
        Some((name.subrange(0, name.len() - 5), ResponseFormat::Json))
    } else if name.len() > 5 && name.subrange(name.len() - 5, name.len() as int) == ".html"@ {
        Some((name.subrange(0, name.len() - 5), ResponseFormat::Html))
    } else {
        None
    }
}

/// Classifies a folder file by its name: the stem and format for a
/// `.json` or `.html` file with a non-empty stem, `None` for anything
/// else.
pub fn classify_file_name(name: &str) -> (r: Option<(String, ResponseFormat)>)
    ensures
        (match r {
            Some(p) => classify_name(name@) matches Some(q) && q.0 == p.0@ && q.1 == p.1,
            None => classify_name(name@) is None,
        }),
{
    proof {
        reveal_strlit(".json");
        reveal_strlit(".html");
        assert(".json"@.len() == 5);
        assert(".html"@.len() == 5);
    }
    let n = name.unicode_len();
    if n > 5 && has_suffix(name, ".json") {
        Some((name.substring_char(0, n - 5).to_owned(), ResponseFormat::Json))
    } else if n > 5 && has_suffix(name, ".html") {
        proof {
            assert(".json"@[0] == '.' && ".json"@[1] == 'j');
            assert(".html"@[1] == 'h');
        }
        Some((name.substring_char(0, n - 5).to_owned(), ResponseFormat::Html))
    } else {
        None
    }
}

/// The view of a list of folder files: each file's name and the text that
/// could be read from it.
pub open spec fn files_view(files: Seq<(String, Option<String>)>) -> Seq<(Seq<char>, Option<
    Seq<char>,
>)> {
    files.map(
        |i: int, f: (String, Option<String>)|
            (
                f.0@,
                match f.1 {
                    Some(t) => Some(t@),
                    None => None,
                },
            ),
    )
}

/// One folder file folded into the endpoint map: classified files are
/// stored under a slash plus their stem, others change nothing.
pub open spec fn folder_step(
    m: Seq<(Seq<char>, EndpointContentModel)>,
    f: (Seq<char>, Option<Seq<char>>),
) -> Seq<(Seq<char>, EndpointContentModel)> {
    match classify_name(f.0) {
        Some(c) => map_put(
            m,
            seq!['/'] + c.0,
            EndpointContentModel { content: f.1, format: format_content_type(c.1) },
        ),
        None => m,
    }
}

/// The endpoint map a folder of files yields, folded in file order.
pub open spec fn folder_map(files: Seq<(Seq<char>, Option<Seq<char>>)>) -> Seq<(
    Seq<char>,
    EndpointContentModel,
)>
    decreases files.len(),
{
    if files.len() == 0 {
        Seq::empty()
    } else {
        folder_step(folder_map(files.drop_last()), files.last())
    }
}

/// Builds the endpoint map of a folder: one endpoint per `.json` or
/// `.html` file, keyed by a slash plus the file's stem, other files
/// skipped.
pub fn from_folder_entries(files: &Vec<(String, Option<String>)>) -> (r: EndpointMap)
    ensures
        r.well_formed(),
        r@ == folder_map(files_view(files@)),
{
    let mut m = EndpointMap::new();
    proof {
        assert(files_view(files@).subrange(0, 0) =~= Seq::<(Seq<char>, Option<Seq<char>>)>::empty());
        assert(m@ =~= folder_map(files_view(files@).subrange(0, 0)));
    }
    let n = files.len();
    let mut i: usize = 0;
    while i < n
        invariant
            0 <= i <= n,
            n == files@.len(),
            m.well_formed(),
            m@ == folder_map(files_view(files@).subrange(0, i as int)),
        decreases n - i,
    {
        let ghost fv = files_view(files@);
        match classify_file_name(files[i].0.as_str()) {
            Some((stem, fmt)) => {
                let mut ep = String::from_str("/");
                proof {
                    reveal_strlit("/");
                }
                ep.append(stem.as_str());
                proof {
                    assert("/"@ =~= seq!['/']);
                    assert(ep@ =~= seq!['/'] + stem@);
                }
                let text = match &files[i].1 {
                    Some(t) => Some(t.clone()),
                    None => None,
                };
                m.insert(ep, EndpointContent { content: text, format: fmt.to_string() });
            },
            None => {},
        }
        proof {
            assert(fv.subrange(0, i + 1).drop_last() =~= fv.subrange(0, i as int));
            assert(fv.subrange(0, i + 1).last() == fv[i as int]);
            assert(fv[i as int].0 == files@[i as int].0@);
            assert(fv[i as int].1 == (match files@[i as int].1 {
                Some(t) => Some(t@),
                None => None::<Seq<char>>,
            }));
            assert(m@ == folder_step(folder_map(fv.subrange(0, i as int)), fv[i as int]));
        }
        i += 1;
    }
    proof {
        assert(files_view(files@).subrange(0, n as int) =~= files_view(files@));
    }
    m
}

/// The endpoint map the command line calls for, given what the shell
/// could read: exactly one of literal content, a content file, or a
/// content folder, and a single blank root endpoint where none is given.
pub open spec fn populate_spec(
    args: Arguments,
    file_text: Option<Seq<char>>,
    folder: Option<Seq<(Seq<char>, Option<Seq<char>>)>>,
) -> Seq<(Seq<char>, EndpointContentModel)> {
    match (args.content.content, args.content.content_file, args.content.content_folder) {
        (Some(c), None, None) => Seq::empty().push(
            (
                args.endpoint@,
                EndpointContentModel {
                    content: Some(c@),
                    format: format_content_type(args.format),
                },
            ),
        ),
        (None, Some(f), None) => Seq::empty().push(
            (
                endpoint_for(f@),
                EndpointContentModel { content: file_text, format: format_content_type(args.format) },
            ),
        ),
        (None, None, Some(_)) => match folder {
            Some(fs) => folder_map(fs),
            None => Seq::empty(),
        },
        _ => Seq::empty().push(
            (seq!['/'], EndpointContentModel { content: None, format: Seq::<char>::empty() }),
        ),
    }
}

/// Builds the endpoint map from the parsed arguments.  The shell hands in
/// the text of the content file, where one was named and readable, and
/// the files of the content folder, where one was named and listable.
pub fn populate_map(
    args: &Arguments,
    file_text: Option<String>,
    folder_files: Option<&Vec<(String, Option<String>)>>,
) -> (r: EndpointMap)
    ensures
        r.well_formed(),
        r@ == populate_spec(
            *args,
            match file_text {
                Some(ref t) => Some(t@),
                None => None,
            },
            match folder_files {
                Some(fs) => Some(files_view(fs@)),
                None => None,
            },
        ),
{
    match (&args.content.content, &args.content.content_file, &args.content.content_folder) {
        (Some(content), None, None) => {
            let mut m = EndpointMap::new();
            m.insert(args.endpoint.clone(), EndpointContent::from_content(content.as_str(), &args.format));
            proof {
                assert(m@ =~= populate_spec(*args, match file_text {
                    Some(ref t) => Some(t@),
                    None => None,
                }, None));
            }
            m
        },
        (None, Some(content_file), None) => {
            let ghost ft = match file_text {
                Some(ref t) => Some(t@),
                None => None::<Seq<char>>,
            };
            let mut m = EndpointMap::new();
            let ep = endpoint_for_file(content_file.as_str());
            m.insert(ep, EndpointContent::from_file_text(file_text, &args.format));
            proof {
                assert(m@ =~= populate_spec(*args, ft, None));
            }
            m
        },
        (None, None, Some(_)) => {
            match folder_files {
                Some(files) => from_folder_entries(files),
                None => EndpointMap::new(),
            }
        },
        _ => {
            let mut m = EndpointMap::new();
            let root = String::from_str("/");
            proof {
                reveal_strlit("/");
                assert(root@ =~= seq!['/']);
            }
            m.insert(root, EndpointContent { content: None, format: String::new() });
            proof {
                assert(m@ =~= populate_spec(*args, match file_text {
                    Some(ref t) => Some(t@),
                    None => None,
                }, match folder_files {
                    Some(fs) => Some(files_view(fs@)),
                    None => None,
                }));
            }
            m
        },
    }
}

/// A mutable slot of an item vector.
fn item_at<'a>(items: &'a mut Vec<(String, EndpointContent)>, i: usize) -> (slot: &'a mut (
    String,
    EndpointContent,
))
    requires
        i < old(items)@.len(),
    ensures
        *slot == old(items)@[i as int],
        final(items)@ == old(items)@.update(i as int, *final(slot)),
{
    &mut items[i]
}

} // verus!
