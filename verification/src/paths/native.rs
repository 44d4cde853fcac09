//! Paths as the platform takes them apart, and where they lead, without looking at a disk.

use vstd::prelude::*;

use crate::paths::RequestFault;
use crate::text;

verus! {

/// A part of a path.
#[derive(Debug, Clone, PartialEq, Eq)]
pub enum PathPart {
    /// The way up.
    Parent,
    /// A name, in the bytes that the platform has for it.
    Name(Vec<u8>),
}

/// What a [`PathPart`] stands for.
#[verifier::ext_equal]
pub enum PathPartView {
    Parent,
    Name(Seq<u8>),
}

impl DeepView for PathPart {
    type V = PathPartView;

    open spec fn deep_view(&self) -> PathPartView {
        match self {
            PathPart::Parent => PathPartView::Parent,
            PathPart::Name(name) => PathPartView::Name(name@),
        }
    }
}

/// A path as it was given.
#[derive(Debug, Clone, PartialEq, Eq)]
pub struct NativePath {
    /// The path as it is shown.
    pub text: String,
    /// What stands before the root, such as a drive; empty where nothing does.
    pub prefix: Vec<u8>,
    /// Whether it starts at a root.
    pub rooted: bool,
    /// Whether the platform takes it to be absolute.
    pub absolute: bool,
    /// Its parts, without those that lead nowhere.
    pub parts: Vec<PathPart>,
}

/// What a [`NativePath`] stands for.
#[verifier::ext_equal]
pub struct NativePathView {
    pub text: Seq<char>,
    pub prefix: Seq<u8>,
    pub rooted: bool,
    pub absolute: bool,
    pub parts: Seq<PathPartView>,
}

impl DeepView for NativePath {
    type V = NativePathView;

    open spec fn deep_view(&self) -> NativePathView {
        NativePathView {
            text: self.text@,
            prefix: self.prefix@,
            rooted: self.rooted,
            absolute: self.absolute,
            parts: self.parts.deep_view(),
        }
    }
}

/// A path that leads nowhere but down from its start: as the file system knows it, or once the
/// ways up in it are taken.
#[derive(Debug, Clone, PartialEq, Eq)]
pub struct NormalPath {
    /// What stands before the root, such as a drive; empty where nothing does.
    pub prefix: Vec<u8>,
    /// Whether it starts at a root.
    pub rooted: bool,
    /// Its names.
    pub parts: Vec<Vec<u8>>,
}

/// What a [`NormalPath`] stands for.
#[verifier::ext_equal]
pub struct NormalPathView {
    pub prefix: Seq<u8>,
    pub rooted: bool,
    pub parts: Seq<Seq<u8>>,
}

impl DeepView for NormalPath {
    type V = NormalPathView;

    open spec fn deep_view(&self) -> NormalPathView {
        NormalPathView {
            prefix: self.prefix@,
            rooted: self.rooted,
            parts: self.parts.deep_view(),
        }
    }
}

/// Where `parts` lead from `start`: a way up takes away the name before it; at the start it takes
/// nothing away.
pub open spec fn walked(start: Seq<Seq<u8>>, parts: Seq<PathPartView>) -> Seq<Seq<u8>>
    decreases parts.len(),
{
    if parts.len() == 0 {
        start
    } else {
        let front = walked(start, parts.drop_last());
        match parts.last() {
            PathPartView::Name(name) => front.push(name),
            PathPartView::Parent => if front.len() > 0 {
                front.drop_last()
            } else {
                front
            },
        }
    }
}

/// The normal form of a path.
pub open spec fn normal(path: NativePathView) -> NormalPathView {
    NormalPathView {
        prefix: path.prefix,
        rooted: path.rooted,
        parts: walked(Seq::empty(), path.parts),
    }
}

/// The normal form of `path` as seen from directory `base`: an absolute path, and one with a
/// prefix, stands for itself; one that starts at a root keeps the prefix of `base`.
pub open spec fn normal_from(base: NormalPathView, path: NativePathView) -> NormalPathView {
    if path.absolute || path.prefix.len() > 0 {
        normal(path)
    } else if path.rooted {
        NormalPathView { prefix: base.prefix, rooted: true, parts: normal(path).parts }
    } else {
        NormalPathView {
            prefix: base.prefix,
            rooted: base.rooted,
            parts: walked(base.parts, path.parts),
        }
    }
}

/// What is left of `path` behind `root`, where it lies below it. Below a path without root and
/// names lies everything with its prefix, and below an empty one everything.
pub open spec fn remainder(root: NormalPathView, path: NormalPathView) -> Option<NormalPathView> {
    if !root.rooted && root.parts.len() == 0 {
        if root.prefix.len() == 0 {
            Some(path)
        } else if root.prefix == path.prefix {
            Some(
                NormalPathView { prefix: Seq::empty(), rooted: path.rooted, parts: path.parts },
            )
        } else {
            None
        }
    } else if root.prefix == path.prefix && root.rooted == path.rooted && text::begins_with(
        path.parts,
        root.parts,
    ) {
        Some(
            NormalPathView {
                prefix: Seq::empty(),
                rooted: false,
                parts: path.parts.skip(root.parts.len() as int),
            },
        )
    } else {
        None
    }
}

fn copied(bytes: &[u8]) -> (out: Vec<u8>)
    ensures
        out@ == bytes@,
{
    let mut out: Vec<u8> = Vec::new();
    let mut i: usize = 0;
    while i < bytes.len()
        invariant
            i <= bytes.len(),
            out@ == bytes@.take(i as int),
        decreases bytes.len() - i,
    {
        out.push(bytes[i]);
        i = i + 1;
        assert(out@ =~= bytes@.take(i as int));
    }
    assert(bytes@.take(i as int) =~= bytes@);
    out
}

fn same_bytes(a: &[u8], b: &[u8]) -> (r: bool)
    ensures
        r == (a@ == b@),
{
    if a.len() != b.len() {
        return false;
    }
    let mut i: usize = 0;
    while i < a.len()
        invariant
            i <= a.len() == b.len(),
            forall|j: int| 0 <= j < i ==> a@[j] == b@[j],
        decreases a.len() - i,
    {
        if a[i] != b[i] {
            return false;
        }
        i = i + 1;
    }
    assert(a@ =~= b@);
    true
}

fn copied_names(names: &[Vec<u8>], start: usize) -> (out: Vec<Vec<u8>>)
    requires
        start <= names.len(),
    ensures
        out.deep_view() == names.deep_view().skip(start as int),
{
    let ghost all = names.deep_view();
    let mut out: Vec<Vec<u8>> = Vec::new();
    let mut i: usize = start;
    assert(out.deep_view() =~= all.subrange(start as int, start as int));
    while i < names.len()
        invariant
            start <= i <= names.len(),
            all == names.deep_view(),
            out.deep_view() == all.subrange(start as int, i as int),
        decreases names.len() - i,
    {
        let ghost before = out.deep_view();
        out.push(copied(names[i].as_slice()));
        assert(out.deep_view() =~= before.push(all[i as int]));
        i = i + 1;
        assert(before.push(all[i - 1]) =~= all.subrange(start as int, i as int));
    }
    assert(all.subrange(start as int, i as int) =~= all.skip(start as int));
    out
}

fn push_walked(names: &mut Vec<Vec<u8>>, parts: &[PathPart])
    ensures
        final(names).deep_view() == walked(old(names).deep_view(), parts.deep_view()),
{
    let ghost start = names.deep_view();
    let ghost all = parts.deep_view();
    let mut i: usize = 0;
    while i < parts.len()
        invariant
            i <= parts.len(),
            all == parts.deep_view(),
            names.deep_view() == walked(start, all.take(i as int)),
        decreases parts.len() - i,
    {
        let ghost before = names.deep_view();
        proof {
            assert(all.take(i + 1).drop_last() =~= all.take(i as int));
            assert(all.take(i + 1).last() == parts@[i as int].deep_view());
        }
        match &parts[i] {
            PathPart::Name(name) => {
                let copy = copied(name.as_slice());
                let ghost value = copy@;
                assert(copy.deep_view() =~= value);
                names.push(copy);
                assert(names.deep_view() =~= before.push(value));
            },
            PathPart::Parent => {
                if names.len() > 0 {
                    names.pop();
                    assert(names.deep_view() =~= before.drop_last());
                }
            },
        }
        i = i + 1;
    }
    assert(all.take(i as int) =~= all);
}

impl NormalPath {
    /// The same path.
    pub fn duplicate(&self) -> (out: NormalPath)
        ensures
            out.deep_view() == self.deep_view(),
    {
        let parts = copied_names(self.parts.as_slice(), 0);
        assert(self.parts.deep_view().skip(0) =~= self.parts.deep_view());
        NormalPath { prefix: copied(self.prefix.as_slice()), rooted: self.rooted, parts }
    }
}

/// The normal form of a path.
pub fn lexically_normalize(path: &NativePath) -> (out: NormalPath)
    ensures
        out.deep_view() == normal(path.deep_view()),
{
    let mut parts: Vec<Vec<u8>> = Vec::new();
    assert(parts.deep_view() =~= Seq::empty());
    push_walked(&mut parts, path.parts.as_slice());
    NormalPath { prefix: copied(path.prefix.as_slice()), rooted: path.rooted, parts }
}

/// The normal form of `path` as seen from directory `base`.
pub fn normalize_from(base: &NormalPath, path: &NativePath) -> (out: NormalPath)
    ensures
        out.deep_view() == normal_from(base.deep_view(), path.deep_view()),
{
    if path.absolute || path.prefix.len() > 0 {
        return lexically_normalize(path);
    }
    if path.rooted {
        let from_root = lexically_normalize(path);
        return NormalPath {
            prefix: copied(base.prefix.as_slice()),
            rooted: true,
            parts: from_root.parts,
        };
    }
    let mut out = base.duplicate();
    push_walked(&mut out.parts, path.parts.as_slice());
    out
}

/// What is left of `path` behind `root`, where it lies below it.
pub fn strip_root(root: &NormalPath, path: &NormalPath) -> (out: Option<NormalPath>)
    ensures
        out.deep_view() == remainder(root.deep_view(), path.deep_view()),
{
    let ghost r = root.deep_view();
    let ghost p = path.deep_view();
    if !root.rooted && root.parts.len() == 0 {
        if root.prefix.len() == 0 {
            return Some(path.duplicate());
        }
        if !same_bytes(root.prefix.as_slice(), path.prefix.as_slice()) {
            return None;
        }
        let mut out = path.duplicate();
        out.prefix = Vec::new();
        assert(out.deep_view() =~= remainder(r, p)->0);
        return Some(out);
    }
    if root.rooted != path.rooted || root.parts.len() > path.parts.len() || !same_bytes(
        root.prefix.as_slice(),
        path.prefix.as_slice(),
    ) {
        return None;
    }
    let mut i: usize = 0;
    while i < root.parts.len()
        invariant
            i <= root.parts.len() <= path.parts.len(),
            r == root.deep_view(),
            p == path.deep_view(),
            root.rooted || root.parts.len() > 0,
            p.parts.take(i as int) == r.parts.take(i as int),
        decreases root.parts.len() - i,
    {
        assert(r.parts[i as int] == root.parts@[i as int]@);
        assert(p.parts[i as int] == path.parts@[i as int]@);
        if !same_bytes(root.parts[i].as_slice(), path.parts[i].as_slice()) {
            assert(p.parts.take(r.parts.len() as int)[i as int] == p.parts[i as int]);
            return None;
        }
        i = i + 1;
        assert(p.parts.take(i as int) =~= r.parts.take(i as int));
    }
    assert(r.parts.take(i as int) =~= r.parts);
    let out = NormalPath {
        prefix: Vec::new(),
        rooted: false,
        parts: copied_names(path.parts.as_slice(), i),
    };
    assert(out.deep_view() =~= remainder(r, p)->0);
    Some(out)
}

/// The text that the bytes of a name encode.
pub open spec fn name_text() -> spec_fn(Seq<u8>) -> Seq<char> {
    |name: Seq<u8>| vstd::utf8::decode_utf8(name)
}

/// The text that stands for a name, whatever its bytes.
pub open spec fn name_shown() -> spec_fn(Seq<u8>) -> Seq<char> {
    |name: Seq<u8>| text::utf8_lossy(name)
}

/// The names of a path with `/` between them, whatever their bytes.
pub open spec fn names_shown(path: NormalPathView) -> Seq<char> {
    text::joined(path.parts.map_values(name_shown()), "/"@)
}

/// Whether every name of a path is text.
pub open spec fn names_are_text(path: NormalPathView) -> bool {
    forall|i: int| 0 <= i < path.parts.len() ==> vstd::utf8::valid_utf8(#[trigger] path.parts[i])
}

/// A path with `/` between its names: what starts anew lies outside, and a name has to be text.
pub open spec fn portable(path: NormalPathView) -> Result<Seq<char>, RequestFault> {
    if path.prefix.len() > 0 || path.rooted {
        Err(RequestFault::OutsideRepository)
    } else if !names_are_text(path) {
        Err(RequestFault::UnsupportedEncoding)
    } else {
        Ok(text::joined(path.parts.map_values(name_text()), "/"@))
    }
}

/// A path with `/` between its names.
pub fn portable_relative_path(path: &NormalPath) -> (r: Result<String, RequestFault>)
    ensures
        match r {
            Ok(s) => portable(path.deep_view()) == Ok::<Seq<char>, RequestFault>(s@),
            Err(fault) => portable(path.deep_view()) == Err::<Seq<char>, RequestFault>(fault),
        },
{
    if path.prefix.len() > 0 || path.rooted {
        return Err(RequestFault::OutsideRepository);
    }
    let ghost all = path.parts.deep_view();
    let mut names: Vec<String> = Vec::new();
    let mut i: usize = 0;
    assert(names.deep_view() =~= all.take(0).map_values(name_text()));
    while i < path.parts.len()
        invariant
            i <= path.parts.len(),
            all == path.parts.deep_view(),
            path.prefix@.len() == 0,
            !path.rooted,
            forall|j: int| 0 <= j < i ==> vstd::utf8::valid_utf8(#[trigger] all[j]),
            names.deep_view() == all.take(i as int).map_values(name_text()),
        decreases path.parts.len() - i,
    {
        let ghost before = names.deep_view();
        assert(all[i as int] == path.parts@[i as int]@);
        match text::decode(path.parts[i].as_slice()) {
            Err(_) => {
                assert(!vstd::utf8::valid_utf8(path.deep_view().parts[i as int]));
                return Err(RequestFault::UnsupportedEncoding);
            },
            Ok(name) => {
                let ghost value = name@;
                names.push(name);
                assert(names.deep_view() =~= before.push(value));
            },
        }
        i = i + 1;
        assert(names.deep_view() =~= all.take(i as int).map_values(name_text()));
    }
    assert(all.take(i as int) =~= all);
    Ok(text::join(names.as_slice(), "/"))
}

/// The names of a path with `/` between them, whatever their bytes.
pub fn path_to_index_string(path: &NormalPath) -> (out: String)
    ensures
        out@ == names_shown(path.deep_view()),
{
    let ghost all = path.parts.deep_view();
    let mut names: Vec<String> = Vec::new();
    let mut i: usize = 0;
    assert(names.deep_view() =~= all.take(0).map_values(name_shown()));
    while i < path.parts.len()
        invariant
            i <= path.parts.len(),
            all == path.parts.deep_view(),
            names.deep_view() == all.take(i as int).map_values(name_shown()),
        decreases path.parts.len() - i,
    {
        let ghost before = names.deep_view();
        let name = text::decode_lossy(path.parts[i].as_slice());
        let ghost value = name@;
        names.push(name);
        assert(names.deep_view() =~= before.push(value));
        assert(all[i as int] == path.parts@[i as int]@);
        i = i + 1;
        assert(names.deep_view() =~= all.take(i as int).map_values(name_shown()));
    }
    assert(all.take(i as int) =~= all);
    text::join(names.as_slice(), "/")
}

/// What a request for a file is seen from, as the file system knows it, where it does.
#[derive(Debug, Clone, PartialEq, Eq)]
pub struct RequestPlaces {
    /// The directory that the request is made in.
    pub current: Option<NormalPath>,
    /// The root of the worktree.
    pub root: Option<NormalPath>,
}

/// What [`RequestPlaces`] stands for.
#[verifier::ext_equal]
pub struct RequestPlacesView {
    pub current: Option<NormalPathView>,
    pub root: Option<NormalPathView>,
}

impl DeepView for RequestPlaces {
    type V = RequestPlacesView;

    open spec fn deep_view(&self) -> RequestPlacesView {
        RequestPlacesView { current: self.current.deep_view(), root: self.root.deep_view() }
    }
}

/// What a requested path may name: nothing inside `root`, `root` itself (a fault), or a
/// path below it.
pub open spec fn candidate(root: NormalPathView, path: NormalPathView) -> Result<
    Seq<Seq<char>>,
    RequestFault,
> {
    match remainder(root, path) {
        None => Ok(Seq::empty()),
        Some(rest) => match portable(rest) {
            Err(fault) => Err(fault),
            Ok(below) => if below.len() == 0 {
                Err(RequestFault::EmptyPath)
            } else {
                Ok(seq![below])
            },
        },
    }
}

/// Two lists of at most one text each as one ascending list without repetition.
pub open spec fn merged(first: Seq<Seq<char>>, second: Seq<Seq<char>>) -> Seq<Seq<char>> {
    if first.len() == 0 {
        second
    } else if second.len() == 0 || first[0] == second[0] {
        first
    } else if text::text_lt(first[0], second[0]) {
        first + second
    } else {
        second + first
    }
}

/// The repository-relative paths that `requested` may mean, seen from the current directory or
/// from the root of the worktree.
pub open spec fn candidates_for(places: RequestPlacesView, requested: NativePathView) -> Result<
    Seq<Seq<char>>,
    RequestFault,
> {
    if requested.text.len() == 0 {
        Err(RequestFault::EmptyPath)
    } else {
        match (places.current, places.root) {
            (Some(current), Some(root)) => {
                let first = candidate(root, normal_from(current, requested));
                let second = if requested.absolute {
                    Ok(Seq::empty())
                } else {
                    candidate(root, normal_from(root, requested))
                };
                match (first, second) {
                    (Err(fault), _) => Err(fault),
                    (Ok(_), Err(fault)) => Err(fault),
                    (Ok(a), Ok(b)) => if a.len() == 0 && b.len() == 0 {
                        Err(RequestFault::OutsideRepository)
                    } else {
                        Ok(merged(a, b))
                    },
                }
            },
            _ => Err(RequestFault::OutsideRepository),
        }
    }
}

fn candidate_path(root: &NormalPath, path: &NormalPath) -> (r: Result<
    Option<String>,
    RequestFault,
>)
    ensures
        match r {
            Err(fault) => candidate(root.deep_view(), path.deep_view()) == Err::<
                Seq<Seq<char>>,
                RequestFault,
            >(fault),
            Ok(None) => candidate(root.deep_view(), path.deep_view()) == Ok::<
                Seq<Seq<char>>,
                RequestFault,
            >(Seq::empty()),
            Ok(Some(s)) => s@.len() > 0 && candidate(root.deep_view(), path.deep_view()) == Ok::<
                Seq<Seq<char>>,
                RequestFault,
            >(seq![s@]),
        },
{
    match strip_root(root, path) {
        None => Ok(None),
        Some(rest) => match portable_relative_path(&rest) {
            Err(fault) => Err(fault),
            Ok(below) => if below.as_str().is_empty() {
                Err(RequestFault::EmptyPath)
            } else {
                Ok(Some(below))
            },
        },
    }
}

/// The repository-relative paths that `requested` may mean, seen from the current directory or
/// from the root of the worktree, in ascending order.
pub fn requested_candidates(places: &RequestPlaces, requested: &NativePath) -> (r: Result<
    Vec<String>,
    RequestFault,
>)
    ensures
        match r {
            Ok(list) => candidates_for(places.deep_view(), requested.deep_view()) == Ok::<
                Seq<Seq<char>>,
                RequestFault,
            >(list.deep_view()),
            Err(fault) => candidates_for(places.deep_view(), requested.deep_view()) == Err::<
                Seq<Seq<char>>,
                RequestFault,
            >(fault),
        },
{
    if requested.text.as_str().is_empty() {
        return Err(RequestFault::EmptyPath);
    }
    let (current, root) = match (&places.current, &places.root) {
        (Some(current), Some(root)) => (current, root),
        _ => return Err(RequestFault::OutsideRepository),
    };
    let first = match candidate_path(root, &normalize_from(current, requested)) {
        Err(fault) => return Err(fault),
        Ok(found) => found,
    };
    let second = if requested.absolute {
        None
    } else {
        match candidate_path(root, &normalize_from(root, requested)) {
            Err(fault) => return Err(fault),
            Ok(found) => found,
        }
    };
    let mut out: Vec<String> = Vec::new();
    match (first, second) {
        (None, None) => {
            return Err(RequestFault::OutsideRepository);
        },
        (Some(a), None) => {
            out.push(a);
            assert(out.deep_view() =~= seq![a@]);
        },
        (None, Some(b)) => {
            out.push(b);
            assert(out.deep_view() =~= seq![b@]);
        },
        (Some(a), Some(b)) => {
            let ghost x = a@;
            let ghost y = b@;
            if text::same(a.as_str(), b.as_str()) {
                out.push(a);
                assert(out.deep_view() =~= seq![x]);
            } else if text::precedes(a.as_str(), b.as_str()) {
                out.push(a);
                out.push(b);
                assert(out.deep_view() =~= seq![x] + seq![y]);
            } else {
                out.push(b);
                out.push(a);
                assert(out.deep_view() =~= seq![y] + seq![x]);
            }
        },
    }
    Ok(out)
}

/// Whether bytes are a name: not empty, neither `.` nor `..`, and without a separator.
pub open spec fn is_name(name: Seq<u8>) -> bool {
    &&& name.len() > 0
    &&& name != seq![46u8]
    &&& name != seq![46u8, 46u8]
    &&& !name.contains(47u8)
}

/// Whether the parts of a path that are no ways up are names.
pub open spec fn parts_are_names(parts: Seq<PathPartView>) -> bool {
    forall|i: int|
        0 <= i < parts.len() ==> ((#[trigger] parts[i]) matches PathPartView::Name(name)
            ==> is_name(name))
}

/// Whether no name leads upwards or nowhere.
pub open spec fn leads_down(names: Seq<Seq<u8>>) -> bool {
    forall|i: int| 0 <= i < names.len() ==> is_name(#[trigger] names[i])
}

proof fn walked_leads_down(start: Seq<Seq<u8>>, parts: Seq<PathPartView>)
    requires
        leads_down(start),
        parts_are_names(parts),
    ensures
        leads_down(walked(start, parts)),
    decreases parts.len(),
{
    if parts.len() > 0 {
        let front = parts.drop_last();
        assert forall|i: int| 0 <= i < front.len() implies ((
        #[trigger] front[i]) matches PathPartView::Name(name) ==> is_name(name)) by {
            assert(front[i] == parts[i]);
        }
        walked_leads_down(start, front);
        assert(parts[parts.len() - 1] == parts.last());
    }
}

/// What lies below a root is named by names that lead down from it, whatever ways up the path
/// has.
pub proof fn paths_below_a_root_lead_down(
    root: NormalPathView,
    base: NormalPathView,
    path: NativePathView,
)
    requires
        leads_down(base.parts),
        parts_are_names(path.parts),
    ensures
        remainder(root, normal_from(base, path)) matches Some(rest) ==> leads_down(rest.parts),
        remainder(root, normal(path)) matches Some(rest) ==> leads_down(rest.parts),
{
    walked_leads_down(base.parts, path.parts);
    walked_leads_down(Seq::empty(), path.parts);
}

/// Names as the parts of a path.
pub open spec fn named(names: Seq<Seq<u8>>) -> Seq<PathPartView> {
    names.map_values(|name: Seq<u8>| PathPartView::Name(name))
}

proof fn names_lead_on(start: Seq<Seq<u8>>, names: Seq<Seq<u8>>)
    ensures
        walked(start, named(names)) == start + names,
    decreases names.len(),
{
    if names.len() > 0 {
        let front = names.drop_last();
        names_lead_on(start, front);
        assert(named(names).drop_last() =~= named(front));
        assert(named(names).last() == PathPartView::Name(names.last()));
        assert(start + names =~= (start + front).push(names.last()));
    } else {
        assert(start + names =~= start);
    }
}

/// A file below a root is the same whether it is named from the root on, or by its absolute path,
/// wherever that is seen from; and it is named by what follows the root.
pub proof fn relative_and_absolute_paths_name_the_same_file(
    root: NormalPathView,
    base: NormalPathView,
    names: Seq<Seq<u8>>,
    relative: NativePathView,
    absolute: NativePathView,
)
    requires
        root.rooted,
        !relative.absolute && !relative.rooted && relative.prefix.len() == 0,
        relative.parts == named(names),
        absolute.absolute && absolute.rooted && absolute.prefix == root.prefix,
        absolute.parts == named(root.parts + names),
    ensures
        normal_from(root, relative) == normal_from(base, absolute),
        remainder(root, normal_from(base, absolute)) == Some(
            NormalPathView { prefix: Seq::empty(), rooted: false, parts: names },
        ),
{
    names_lead_on(root.parts, names);
    names_lead_on(Seq::empty(), root.parts + names);
    let all = root.parts + names;
    assert(Seq::<Seq<u8>>::empty() + all =~= all);
    assert(all.take(root.parts.len() as int) =~= root.parts);
    assert(all.skip(root.parts.len() as int) =~= names);
}

} // verus!
