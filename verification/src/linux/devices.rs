//! The search for devices with their own frequency control: the class
//! directory, and a bounded walk through the device tree for kernels without it.

use vstd::prelude::*;
use crate::model::seq_view;
use crate::order::{text_lt, text_side, Side};
use crate::paths::{
    components, is_below, join, joined, lies_below, path_view, same_path, Component, ComponentView,
};
use crate::platform::{IoFailure, IoKind};
use crate::text::{cat2, cat3, cat4, same, texts};

verus! {

/// The deepest level of the device tree that is read.
pub const MAX_DEVICE_SCAN_DEPTH: usize = 16;

/// The most entries of the device tree that are looked at.
pub const MAX_DEVICE_SCAN_ENTRIES: usize = 100_000;

/// A device with its own frequency control.
#[derive(Debug, PartialEq, Eq)]
pub struct DevfreqCandidate {
    pub entry_name: String,
    pub logical_base: String,
    pub canonical_identity: String,
}

/// The view of [`DevfreqCandidate`].
pub struct CandidateView {
    pub entry_name: Seq<char>,
    pub logical_base: Seq<char>,
    pub canonical_identity: Seq<char>,
}

impl View for DevfreqCandidate {
    type V = CandidateView;

    open spec fn view(&self) -> CandidateView {
        CandidateView {
            entry_name: self.entry_name@,
            logical_base: self.logical_base@,
            canonical_identity: self.canonical_identity@,
        }
    }
}

/// An entry of the class directory.
#[derive(Debug)]
pub enum ClassEntry {
    /// The entry could not be read.
    Unreadable(IoFailure),
    /// The name is no text.
    Unnamed,
    /// A name, and what the system made of its path.
    Named { name: String, canonical: Result<String, IoFailure> },
}

/// An entry of a directory below the device tree.
#[derive(Debug)]
pub struct TreeEntry {
    pub name: String,
    pub path: String,
    /// Whether it is known to be a directory, and no link to one.
    pub directory: bool,
}

/// An entry of a container of devices: directories and links, with what the
/// system made of their paths.
#[derive(Debug)]
pub struct ContainerEntry {
    pub name: Option<String>,
    pub followed: bool,
    pub canonical: Result<String, IoFailure>,
}

/// The view of [`TreeEntry`].
pub struct TreeEntryView {
    pub name: Seq<char>,
    pub path: Seq<char>,
    pub directory: bool,
}

impl View for TreeEntry {
    type V = TreeEntryView;

    open spec fn view(&self) -> TreeEntryView {
        TreeEntryView { name: self.name@, path: self.path@, directory: self.directory }
    }
}

/// What a search found so far.
pub struct Found {
    pub candidates: Seq<CandidateView>,
    pub warnings: Seq<Seq<char>>,
}

/// Whether a device was found under this path before.
pub open spec fn known(all: Seq<CandidateView>, identity: Seq<char>) -> bool {
    exists|i: int|
        0 <= i < all.len() && path_view((#[trigger] all[i]).canonical_identity) == path_view(
            identity,
        )
}

/// What is found with one more warning.
pub open spec fn warned(f: Found, message: Seq<char>) -> Found {
    Found { warnings: f.warnings.push(message), ..f }
}

/// What is found with one more device, unless it is known.
pub open spec fn found_device(f: Found, c: CandidateView) -> Found {
    if known(f.candidates, c.canonical_identity) {
        f
    } else {
        Found { candidates: f.candidates.push(c), ..f }
    }
}

/// What an entry of the class directory adds.
pub open spec fn class_found(root: Seq<char>, f: Found, entry: ClassEntry) -> Found {
    match entry {
        ClassEntry::Unreadable(e) => warned(f, "cannot read devfreq class entry: "@ + e.message@),
        ClassEntry::Unnamed => warned(f, "ignoring devfreq target with a non-UTF-8 name"@),
        ClassEntry::Named { name, canonical } => match canonical {
            Err(e) => warned(
                f,
                "ignoring devfreq "@ + name@ + ": cannot canonicalize: "@ + e.message@,
            ),
            Ok(path) => if lies_below(path@, root) {
                found_device(
                    f,
                    CandidateView {
                        entry_name: name@,
                        logical_base: joined("/sys/class/devfreq"@, name@),
                        canonical_identity: path@,
                    },
                )
            } else {
                warned(f, "ignoring devfreq "@ + name@ + ": target escapes /sys"@)
            },
        },
    }
}

/// What the first `n` entries of the class directory add.
pub open spec fn class_entries(root: Seq<char>, f: Found, all: Seq<ClassEntry>, n: nat) -> Found
    decreases n,
{
    if n == 0 {
        f
    } else {
        class_found(root, class_entries(root, f, all, (n - 1) as nat), all[n - 1])
    }
}

/// What the class directory adds. A missing one adds nothing.
pub open spec fn class_listed(
    root: Seq<char>,
    f: Found,
    directory: Seq<char>,
    listing: Result<Vec<ClassEntry>, IoFailure>,
) -> Found {
    match listing {
        Ok(all) => class_entries(root, f, all@, all@.len()),
        Err(e) => if e.kind == IoKind::NotFound {
            f
        } else {
            warned(f, "cannot list "@ + directory + ": "@ + e.message@)
        },
    }
}

/// The name that a component has in a path.
pub open spec fn component_text(c: ComponentView) -> Seq<char> {
    match c {
        ComponentView::Root => Seq::empty(),
        ComponentView::Current => "."@,
        ComponentView::Parent => ".."@,
        ComponentView::Normal(s) => s,
    }
}

/// The path of components from position `from` to before `n`.
pub open spec fn path_from(c: Seq<ComponentView>, from: int, n: int) -> Seq<char>
    decreases n - from,
{
    if n <= from {
        Seq::empty()
    } else if n == from + 1 {
        component_text(c[from])
    } else {
        path_from(c, from, n - 1) + "/"@ + component_text(c[n - 1])
    }
}

/// The part of a path below another one.
pub open spec fn below(path: Seq<char>, base: Seq<char>) -> Seq<char> {
    path_from(path_view(path), path_view(base).len() as int, path_view(path).len() as int)
}

/// What an entry of a container adds: entries that lead nowhere, or out of the
/// tree, add nothing.
pub open spec fn container_found(root: Seq<char>, f: Found, entry: ContainerEntry) -> Found {
    if !entry.followed {
        f
    } else {
        match (entry.name, entry.canonical) {
            (Some(name), Ok(path)) => if lies_below(path@, root) {
                found_device(
                    f,
                    CandidateView {
                        entry_name: name@,
                        logical_base: joined("/sys"@, below(path@, root)),
                        canonical_identity: path@,
                    },
                )
            } else {
                f
            },
            _ => f,
        }
    }
}

/// What the first `n` entries of a container add.
pub open spec fn container_entries(
    root: Seq<char>,
    f: Found,
    all: Seq<ContainerEntry>,
    n: nat,
) -> Found
    decreases n,
{
    if n == 0 {
        f
    } else {
        container_found(root, container_entries(root, f, all, (n - 1) as nat), all[n - 1])
    }
}

/// The text of a component.
fn text_of(c: &Component) -> (out: String)
    ensures
        out@ == component_text(c@),
{
    match c {
        Component::Root => {
            let out = String::new();
            assert(out@ =~= Seq::<char>::empty());
            out
        },
        Component::Current => ".".to_owned(),
        Component::Parent => "..".to_owned(),
        Component::Normal(s) => s.as_str().to_owned(),
    }
}

/// The part of a path below another one.
fn relative_to(path: &str, base: &str) -> (out: String)
    requires
        lies_below(path@, base@),
    ensures
        out@ == below(path@, base@),
{
    let c = components(path);
    let b = components(base);
    let ghost v = path_view(path@);
    assert(v.len() == c@.len() && path_view(base@).len() == b@.len());
    let from: usize = b.len();
    let mut out = String::new();
    assert(out@ =~= Seq::<char>::empty());
    let mut n: usize = from;
    while n < c.len()
        invariant
            from <= n <= c@.len(),
            v == seq_view(c@),
            out@ == path_from(v, from as int, n as int),
        decreases c@.len() - n,
    {
        assert(v[n as int] == c@[n as int]@);
        let part = text_of(&c[n]);
        out = if n == from {
            part
        } else {
            cat3(out.as_str(), "/", part.as_str())
        };
        n = n + 1;
    }
    out
}

/// A directory that is being walked through.
#[derive(Debug)]
pub struct Frame {
    pub entries: Vec<TreeEntry>,
    pub next: usize,
    pub depth: usize,
}

/// The view of [`Frame`].
pub struct FrameView {
    pub entries: Seq<TreeEntryView>,
    pub next: nat,
    pub depth: nat,
}

impl View for Frame {
    type V = FrameView;

    open spec fn view(&self) -> FrameView {
        FrameView {
            entries: seq_view(self.entries@),
            next: self.next as nat,
            depth: self.depth as nat,
        }
    }
}

/// What to do next in a search.
#[derive(Debug, PartialEq, Eq)]
pub enum ScanStep {
    /// Nothing; ask again.
    Again,
    /// List this directory, at the given level.
    List { path: String, depth: usize },
    /// List this container of devices.
    ListContainer { path: String },
    /// The walk is over.
    Done,
}

/// The view of [`ScanStep`].
pub enum ScanStepView {
    Again,
    List { path: Seq<char>, depth: nat },
    ListContainer { path: Seq<char> },
    Done,
}

impl View for ScanStep {
    type V = ScanStepView;

    open spec fn view(&self) -> ScanStepView {
        match self {
            ScanStep::Again => ScanStepView::Again,
            ScanStep::List { path, depth } => ScanStepView::List {
                path: path@,
                depth: *depth as nat,
            },
            ScanStep::ListContainer { path } => ScanStepView::ListContainer { path: path@ },
            ScanStep::Done => ScanStepView::Done,
        }
    }
}

/// A search for devices: what was found, and the directories that the walk is
/// in, the innermost last.
#[derive(Debug)]
pub struct DevfreqSearch {
    root: String,
    frames: Vec<Frame>,
    visited: usize,
    candidates: Vec<DevfreqCandidate>,
    warnings: Vec<String>,
}

/// The view of [`DevfreqSearch`].
pub struct SearchView {
    pub root: Seq<char>,
    pub frames: Seq<FrameView>,
    pub visited: nat,
    pub found: Found,
}

/// The next step of a walk, and the walk after it.
pub open spec fn walked(v: SearchView) -> (SearchView, ScanStepView) {
    if v.frames.len() == 0 {
        (v, ScanStepView::Done)
    } else {
        let top = v.frames.last();
        let outer = SearchView { frames: v.frames.drop_last(), ..v };
        if top.next >= top.entries.len() {
            (outer, ScanStepView::Again)
        } else if v.visited >= MAX_DEVICE_SCAN_ENTRIES {
            (
                SearchView {
                    found: warned(
                        outer.found,
                        "stopped devfreq fallback scan after 100000 entries"@,
                    ),
                    ..outer
                },
                ScanStepView::Again,
            )
        } else {
            let entry = top.entries[top.next as int];
            let moved = SearchView {
                frames: outer.frames.push(FrameView { next: top.next + 1, ..top }),
                visited: v.visited + 1,
                ..v
            };
            if !entry.directory {
                (moved, ScanStepView::Again)
            } else if entry.name == "devfreq"@ {
                (moved, ScanStepView::ListContainer { path: entry.path })
            } else if top.depth >= MAX_DEVICE_SCAN_DEPTH || moved.visited
                >= MAX_DEVICE_SCAN_ENTRIES {
                (moved, ScanStepView::Again)
            } else {
                (moved, ScanStepView::List { path: entry.path, depth: top.depth + 1 })
            }
        }
    }
}

/// A walk that was handed the entries of a directory.
pub open spec fn entered(
    v: SearchView,
    path: Seq<char>,
    depth: nat,
    listing: Result<Vec<TreeEntry>, IoFailure>,
) -> SearchView {
    match listing {
        Ok(entries) => SearchView {
            frames: v.frames.push(FrameView { entries: seq_view(entries@), next: 0, depth }),
            ..v
        },
        Err(e) => if e.kind == IoKind::NotFound || e.kind == IoKind::PermissionDenied {
            v
        } else {
            SearchView {
                found: warned(v.found, "cannot scan "@ + path + ": "@ + e.message@),
                ..v
            }
        },
    }
}

/// Whether one component comes before another.
pub open spec fn component_rank(c: ComponentView) -> int {
    match c {
        ComponentView::Root => 0,
        ComponentView::Current => 1,
        ComponentView::Parent => 2,
        ComponentView::Normal(_) => 3,
    }
}

/// Whether one component comes before another.
pub open spec fn component_lt(a: ComponentView, b: ComponentView) -> bool {
    match (a, b) {
        (ComponentView::Normal(x), ComponentView::Normal(y)) => text_lt(x, y),
        _ => component_rank(a) < component_rank(b),
    }
}

/// Whether one path comes before another, component by component from `k` on.
pub open spec fn path_lt(a: Seq<ComponentView>, b: Seq<ComponentView>, k: int) -> bool
    decreases b.len() - k,
{
    if k < 0 || k >= b.len() {
        false
    } else if k >= a.len() {
        true
    } else if a[k] == b[k] {
        path_lt(a, b, k + 1)
    } else {
        component_lt(a[k], b[k])
    }
}

/// Whether a device comes before another: by name, then by path.
pub open spec fn candidate_lt(a: CandidateView, b: CandidateView) -> bool {
    text_lt(a.entry_name, b.entry_name) || (a.entry_name == b.entry_name && path_lt(
        path_view(a.canonical_identity),
        path_view(b.canonical_identity),
        0,
    ))
}

/// Where a device goes among sorted ones: before the first from `k` on that
/// comes behind it.
pub open spec fn candidate_place(v: Seq<CandidateView>, x: CandidateView, k: nat) -> nat
    decreases v.len() - k,
{
    if k >= v.len() || candidate_lt(x, v[k as int]) {
        k
    } else {
        candidate_place(v, x, k + 1)
    }
}

/// The first `n` devices, sorted.
pub open spec fn sorted_candidates(all: Seq<CandidateView>, n: nat) -> Seq<CandidateView>
    decreases n,
{
    if n == 0 {
        Seq::empty()
    } else {
        let before = sorted_candidates(all, (n - 1) as nat);
        before.insert(candidate_place(before, all[n - 1], 0) as int, all[n - 1])
    }
}

proof fn place_is_within(v: Seq<CandidateView>, x: CandidateView, k: nat)
    requires
        k <= v.len(),
    ensures
        k <= candidate_place(v, x, k) <= v.len(),
    decreases v.len() - k,
{
    if k < v.len() && !candidate_lt(x, v[k as int]) {
        place_is_within(v, x, k + 1);
    }
}

/// Whether one component comes before another.
fn component_before(a: &Component, b: &Component) -> (r: bool)
    ensures
        r == component_lt(a@, b@),
{
    match (a, b) {
        (Component::Normal(x), Component::Normal(y)) => matches!(
            text_side(x.as_str(), y.as_str()),
            Side::Before
        ),
        _ => rank(a) < rank(b),
    }
}

/// The rank of a component's kind.
fn rank(c: &Component) -> (r: u8)
    ensures
        r == component_rank(c@),
{
    match c {
        Component::Root => 0,
        Component::Current => 1,
        Component::Parent => 2,
        Component::Normal(_) => 3,
    }
}

/// Whether two components are the same.
fn component_is(a: &Component, b: &Component) -> (r: bool)
    ensures
        r == (a@ == b@),
{
    match (a, b) {
        (Component::Normal(x), Component::Normal(y)) => same(x.as_str(), y.as_str()),
        (Component::Normal(_), _) => false,
        (_, Component::Normal(_)) => false,
        _ => rank(a) == rank(b),
    }
}

/// Whether one path comes before another.
fn path_before(a: &str, b: &str) -> (r: bool)
    ensures
        r == path_lt(path_view(a@), path_view(b@), 0),
{
    let x = components(a);
    let y = components(b);
    let ghost v = path_view(a@);
    let ghost w = path_view(b@);
    assert(v.len() == x@.len() && w.len() == y@.len());
    let mut k: usize = 0;
    while k < x.len() && k < y.len()
        invariant
            k <= x@.len(),
            k <= y@.len(),
            v == seq_view(x@),
            w == seq_view(y@),
            v == path_view(a@),
            w == path_view(b@),
            path_lt(v, w, 0) == path_lt(v, w, k as int),
        decreases x@.len() - k,
    {
        assert(v[k as int] == x@[k as int]@ && w[k as int] == y@[k as int]@);
        if !component_is(&x[k], &y[k]) {
            return component_before(&x[k], &y[k]);
        }
        k = k + 1;
    }
    k < y.len()
}

/// Whether a device comes before another.
fn candidate_before(a: &DevfreqCandidate, b: &DevfreqCandidate) -> (r: bool)
    ensures
        r == candidate_lt(a@, b@),
{
    match text_side(a.entry_name.as_str(), b.entry_name.as_str()) {
        Side::Before => true,
        Side::Equal => {
            proof {
                crate::order::text_lt_irreflexive(a@.entry_name);
            }
            path_before(a.canonical_identity.as_str(), b.canonical_identity.as_str())
        },
        Side::Behind => false,
    }
}

/// Sorts devices by name, then by path.
fn sort_candidates(all: Vec<DevfreqCandidate>) -> (out: Vec<DevfreqCandidate>)
    ensures
        seq_view(out@) == sorted_candidates(seq_view(all@), all@.len()),
{
    let ghost v = seq_view(all@);
    let mut left = all;
    let mut out: Vec<DevfreqCandidate> = Vec::new();
    let mut n: Ghost<nat> = Ghost(0nat);
    assert(seq_view(out@) =~= Seq::empty());
    assert(seq_view(left@) =~= v.skip(0));
    while left.len() > 0
        invariant
            n@ <= v.len(),
            seq_view(left@) == v.skip(n@ as int),
            seq_view(out@) == sorted_candidates(v, n@),
            v.len() == all@.len(),
            v == seq_view(all@),
        decreases left@.len(),
    {
        assert(seq_view(left@).len() == left@.len());
        assert(seq_view(left@)[0] == left@[0]@);
        let ghost before_left = left@;
        let x = left.remove(0);
        let ghost before = seq_view(out@);
        assert(before.len() == out@.len());
        let mut k: usize = 0;
        while k < out.len() && !candidate_before(&x, &out[k])
            invariant
                k <= out@.len(),
                before == seq_view(out@),
                candidate_place(before, x@, 0) == candidate_place(before, x@, k as nat),
            decreases out@.len() - k,
        {
            assert(before[k as int] == out@[k as int]@);
            k = k + 1;
        }
        proof {
            if k < out@.len() {
                assert(before[k as int] == out@[k as int]@);
            }
            assert(candidate_place(before, x@, k as nat) == k);
        }
        let ghost added = x@;
        out.insert(k, x);
        assert(seq_view(out@) =~= before.insert(k as int, added));
        n = Ghost(n@ + 1);
        assert(seq_view(left@) =~= v.skip(n@ as int)) by {
            assert(seq_view(left@) =~= seq_view(before_left).skip(1));
        }
    }
    assert(n@ == v.len());
    out
}

impl View for DevfreqSearch {
    type V = SearchView;

    closed spec fn view(&self) -> SearchView {
        SearchView {
            root: self.root@,
            frames: seq_view(self.frames@),
            visited: self.visited as nat,
            found: Found {
                candidates: seq_view(self.candidates@),
                warnings: texts(self.warnings@),
            },
        }
    }
}

impl DevfreqSearch {
    /// A search below the canonical sysfs root.
    pub fn new(root: String) -> (s: Self)
        ensures
            s@ == (SearchView {
                root: root@,
                frames: Seq::empty(),
                visited: 0,
                found: Found { candidates: Seq::empty(), warnings: Seq::empty() },
            }),
    {
        let s = DevfreqSearch {
            root,
            frames: Vec::new(),
            visited: 0,
            candidates: Vec::new(),
            warnings: Vec::new(),
        };
        assert(s@.frames =~= Seq::empty());
        assert(s@.found.candidates =~= Seq::empty());
        assert(s@.found.warnings =~= Seq::empty());
        s
    }

    fn warn(&mut self, message: String)
        ensures
            final(self)@ == (SearchView { found: warned(old(self)@.found, message@), ..old(self)@ }),
    {
        let ghost before = texts(self.warnings@);
        let ghost added = message@;
        self.warnings.push(message);
        assert(texts(self.warnings@) =~= before.push(added));
    }

    fn knows(&self, identity: &str) -> (r: bool)
        ensures
            r == known(self@.found.candidates, identity@),
    {
        let mut i: usize = 0;
        while i < self.candidates.len()
            invariant
                i <= self.candidates@.len(),
                forall|k: int|
                    0 <= k < i ==> path_view(
                        (#[trigger] self@.found.candidates[k]).canonical_identity,
                    ) != path_view(identity@),
            decreases self.candidates@.len() - i,
        {
            assert(self@.found.candidates[i as int] == self.candidates@[i as int]@);
            if same_path(self.candidates[i].canonical_identity.as_str(), identity) {
                return true;
            }
            i = i + 1;
        }
        false
    }

    fn add_device(&mut self, c: DevfreqCandidate)
        ensures
            final(self)@ == (SearchView { found: found_device(old(self)@.found, c@), ..old(self)@ }),
    {
        if !self.knows(c.canonical_identity.as_str()) {
            let ghost before = seq_view(self.candidates@);
            let ghost added = c@;
            self.candidates.push(c);
            assert(seq_view(self.candidates@) =~= before.push(added));
        }
    }

    fn take_class_entry(&mut self, entry: ClassEntry)
        ensures
            final(self)@ == (SearchView {
                found: class_found(old(self)@.root, old(self)@.found, entry),
                ..old(self)@
            }),
    {
        match entry {
            ClassEntry::Unreadable(e) => {
                let message = cat2("cannot read devfreq class entry: ", e.message.as_str());
                self.warn(message);
            },
            ClassEntry::Unnamed => {
                self.warn("ignoring devfreq target with a non-UTF-8 name".to_owned());
            },
            ClassEntry::Named { name, canonical } => match canonical {
                Err(e) => {
                    let message = cat4(
                        "ignoring devfreq ",
                        name.as_str(),
                        ": cannot canonicalize: ",
                        e.message.as_str(),
                    );
                    self.warn(message);
                },
                Ok(path) => {
                    if is_below(path.as_str(), self.root.as_str()) {
                        let logical_base = join("/sys/class/devfreq", name.as_str());
                        self.add_device(
                            DevfreqCandidate {
                                entry_name: name,
                                logical_base,
                                canonical_identity: path,
                            },
                        );
                    } else {
                        let message = cat3(
                            "ignoring devfreq ",
                            name.as_str(),
                            ": target escapes /sys",
                        );
                        self.warn(message);
                    }
                },
            },
        }
    }

    /// Takes in the class directory.
    pub fn class_directory(&mut self, directory: &str, listing: Result<Vec<ClassEntry>, IoFailure>)
        ensures
            final(self)@ == (SearchView {
                found: class_listed(old(self)@.root, old(self)@.found, directory@, listing),
                ..old(self)@
            }),
    {
        let ghost start = self@;
        match listing {
            Ok(entries) => {
                let ghost all = entries@;
                let mut left = entries;
                let mut n: Ghost<nat> = Ghost(0nat);
                assert(left@ =~= all.skip(0));
                while left.len() > 0
                    invariant
                        n@ <= all.len(),
                        left@ == all.skip(n@ as int),
                        self@ == (SearchView {
                            found: class_entries(start.root, start.found, all, n@),
                            ..start
                        }),
                    decreases left@.len(),
                {
                    let entry = left.remove(0);
                    assert(entry == all[n@ as int]);
                    self.take_class_entry(entry);
                    n = Ghost(n@ + 1);
                    assert(left@ =~= all.skip(n@ as int));
                }
            },
            Err(e) => {
                if e.kind != IoKind::NotFound {
                    let message = cat4("cannot list ", directory, ": ", e.message.as_str());
                    self.warn(message);
                }
            },
        }
    }

    /// The next step of the walk through the device tree.
    pub fn step(&mut self) -> (r: ScanStep)
        ensures
            (final(self)@, r@) == walked(old(self)@),
    {
        let ghost start = self@;
        assert(start.frames.len() == self.frames@.len());
        let mut top = match self.frames.pop() {
            None => {
                return ScanStep::Done;
            },
            Some(f) => f,
        };
        assert(top@ == start.frames.last());
        assert(seq_view(self.frames@) =~= start.frames.drop_last());
        assert(top@.entries.len() == top.entries@.len());
        if top.next >= top.entries.len() {
            return ScanStep::Again;
        }
        if self.visited >= MAX_DEVICE_SCAN_ENTRIES {
            self.warn("stopped devfreq fallback scan after 100000 entries".to_owned());
            return ScanStep::Again;
        }
        let at: usize = top.next;
        let depth: usize = top.depth;
        let directory = top.entries[at].directory;
        let path = top.entries[at].path.as_str().to_owned();
        let container = same(top.entries[at].name.as_str(), "devfreq");
        assert(top@.entries[at as int] == top.entries@[at as int]@);
        let ghost held = top@;
        top.next = at + 1;
        self.visited = self.visited + 1;
        let ghost outer = seq_view(self.frames@);
        let ghost added = top@;
        self.frames.push(top);
        proof {
            assert(seq_view(self.frames@) =~= outer.push(added));
            assert(added == FrameView { next: held.next + 1, ..held });
        }
        if !directory {
            ScanStep::Again
        } else if container {
            ScanStep::ListContainer { path }
        } else if depth >= MAX_DEVICE_SCAN_DEPTH || self.visited >= MAX_DEVICE_SCAN_ENTRIES {
            ScanStep::Again
        } else {
            ScanStep::List { path, depth: depth + 1 }
        }
    }

    /// Takes in the entries of a directory of the device tree.
    pub fn listed(&mut self, path: &str, depth: usize, listing: Result<Vec<TreeEntry>, IoFailure>)
        ensures
            final(self)@ == entered(old(self)@, path@, depth as nat, listing),
    {
        match listing {
            Ok(entries) => {
                let frame = Frame { entries, next: 0, depth };
                let ghost outer = seq_view(self.frames@);
                let ghost added = frame@;
                self.frames.push(frame);
                assert(seq_view(self.frames@) =~= outer.push(added));
            },
            Err(e) => {
                if e.kind != IoKind::NotFound && e.kind != IoKind::PermissionDenied {
                    let message = cat4("cannot scan ", path, ": ", e.message.as_str());
                    self.warn(message);
                }
            },
        }
    }

    fn take_container_entry(&mut self, entry: ContainerEntry)
        ensures
            final(self)@ == (SearchView {
                found: container_found(old(self)@.root, old(self)@.found, entry),
                ..old(self)@
            }),
    {
        if !entry.followed {
            return;
        }
        if let (Some(name), Ok(path)) = (entry.name, entry.canonical) {
            if is_below(path.as_str(), self.root.as_str()) {
                let relative = relative_to(path.as_str(), self.root.as_str());
                let logical_base = join("/sys", relative.as_str());
                self.add_device(
                    DevfreqCandidate { entry_name: name, logical_base, canonical_identity: path },
                );
            }
        }
    }

    /// Takes in the entries of a container; one that cannot be listed adds
    /// nothing.
    pub fn container_listed(&mut self, listing: Result<Vec<ContainerEntry>, IoFailure>)
        ensures
            final(self)@ == (match listing {
                Ok(all) => SearchView {
                    found: container_entries(
                        old(self)@.root,
                        old(self)@.found,
                        all@,
                        all@.len(),
                    ),
                    ..old(self)@
                },
                Err(_) => old(self)@,
            }),
    {
        let ghost start = self@;
        if let Ok(entries) = listing {
            let ghost all = entries@;
            let mut left = entries;
            let mut n: Ghost<nat> = Ghost(0nat);
            assert(left@ =~= all.skip(0));
            while left.len() > 0
                invariant
                    n@ <= all.len(),
                    left@ == all.skip(n@ as int),
                    self@ == (SearchView {
                        found: container_entries(start.root, start.found, all, n@),
                        ..start
                    }),
                decreases left@.len(),
            {
                let entry = left.remove(0);
                assert(entry == all[n@ as int]);
                self.take_container_entry(entry);
                n = Ghost(n@ + 1);
                assert(left@ =~= all.skip(n@ as int));
            }
        }
    }

    /// The devices that were found, sorted, and the warnings.
    pub fn finish(self) -> (r: (Vec<DevfreqCandidate>, Vec<String>))
        ensures
            seq_view(r.0@) == sorted_candidates(
                self@.found.candidates,
                self@.found.candidates.len(),
            ),
            texts(r.1@) == self@.found.warnings,
    {
        assert(self@.found.candidates.len() == self.candidates@.len());
        let DevfreqSearch { root: _, frames: _, visited: _, candidates, warnings } = self;
        (sort_candidates(candidates), warnings)
    }
}

/// The walk looks at no more entries than it may, and lists no directory below
/// the deepest level.
pub proof fn walk_is_bounded(v: SearchView)
    requires
        v.visited <= MAX_DEVICE_SCAN_ENTRIES,
    ensures
        walked(v).0.visited <= MAX_DEVICE_SCAN_ENTRIES,
        match walked(v).1 {
            ScanStepView::List { path, depth } => depth <= MAX_DEVICE_SCAN_DEPTH,
            _ => true,
        },
{
}

/// Whether no two devices have the same path.
pub open spec fn devices_differ(all: Seq<CandidateView>) -> bool {
    forall|i: int, j: int|
        0 <= i < j < all.len() ==> path_view((#[trigger] all[i]).canonical_identity) != path_view(
            (#[trigger] all[j]).canonical_identity,
        )
}

/// A device that is found twice is kept once.
pub proof fn devices_are_found_once(f: Found, c: CandidateView)
    requires
        devices_differ(f.candidates),
    ensures
        devices_differ(found_device(f, c).candidates),
        known(found_device(f, c).candidates, c.canonical_identity),
{
    let g = found_device(f, c);
    if !known(f.candidates, c.canonical_identity) {
        assert(g.candidates.last() == c);
        assert forall|i: int, j: int| 0 <= i < j < g.candidates.len() implies path_view(
            (#[trigger] g.candidates[i]).canonical_identity,
        ) != path_view((#[trigger] g.candidates[j]).canonical_identity) by {
            if j == f.candidates.len() {
                assert(f.candidates[i] == g.candidates[i]);
            }
        }
    }
}

/// Sorting devices keeps them all and adds none.
pub proof fn sorting_keeps_devices(all: Seq<CandidateView>, n: nat)
    requires
        n <= all.len(),
    ensures
        sorted_candidates(all, n).to_multiset() =~= all.take(n as int).to_multiset(),
        sorted_candidates(all, n).len() == n,
    decreases n,
{
    broadcast use vstd::seq_lib::group_to_multiset_ensures;

    if n == 0 {
        assert(all.take(0) =~= Seq::empty());
    } else {
        sorting_keeps_devices(all, (n - 1) as nat);
        let before = sorted_candidates(all, (n - 1) as nat);
        let x = all[n - 1];
        place_is_within(before, x, 0);
        let at = candidate_place(before, x, 0) as int;
        let after = before.insert(at, x);
        assert(after.remove(at) =~= before);
        assert(after[at] == x);
        after.to_multiset_ensures();
        all.take(n - 1).to_multiset_ensures();
        assert(all.take(n as int) =~= all.take(n - 1).push(x));
        assert(after.contains(x));
        assert(before.to_multiset() == after.to_multiset().remove(x));
        assert(after.to_multiset() =~= before.to_multiset().insert(x));
    }
}

} // verus!
