//! Root-confined sysfs text access: which physical file a logical path names,
//! which files may be written, and what may be read from or written to them.

use vstd::prelude::*;
use vstd::utf8::{decode_utf8, encode_utf8, valid_utf8};
use crate::model::seq_view;
use crate::paths::{
    components, has_path, is_below, join, joined, lies_below, lists_path, path_view, same_path,
    Component, ComponentView,
};
use crate::platform::{
    malformed, IoFailure, IoKind, IoView, PlatformError, PlatformErrorView, PlatformResult,
};
use crate::table::Table;
use crate::text::{cat2, cat3, read_utf8, same, texts, trim, trimmed, utf8_error};

verus! {

/// The longest attribute that is read.
pub const MAX_ATTRIBUTE_BYTES: usize = 65536;

/// The longest value that is written.
pub const MAX_WRITE_BYTES: usize = 4096;

/// Why a path outside sysfs is refused.
pub const NOT_SYSFS: &'static str = "sysfs paths must be absolute and begin with /sys";

/// Why a path that is not made of plain names is refused.
pub const NOT_NORMAL: &'static str = "non-normal path component";

/// Why a file outside the root is refused.
pub const ESCAPES: &'static str = "canonical target escapes the configured sysfs root";

/// Why a write is refused.
pub const NOT_ALLOWED: &'static str = "adapter is read-only or target is not allowlisted";

/// A path that was refused, and why.
pub open spec fn denied(path: Seq<char>, reason: Seq<char>) -> PlatformErrorView {
    PlatformErrorView::AccessDenied { path, reason }
}

/// The text of components from the third to the one before `n`, where each of
/// them is a plain name.
pub open spec fn tail_names(c: Seq<ComponentView>, n: nat) -> Option<Seq<char>>
    decreases n,
{
    if n <= 2 {
        Some(Seq::empty())
    } else {
        match (tail_names(c, (n - 1) as nat), c[n - 1]) {
            (Some(before), ComponentView::Normal(s)) => Some(
                if before.len() == 0 {
                    s
                } else {
                    before + "/"@ + s
                },
            ),
            _ => None,
        }
    }
}

/// Whether components begin at the logical sysfs root.
pub open spec fn in_sysfs(c: Seq<ComponentView>) -> bool {
    c.len() >= 2 && c[0] == ComponentView::Root && c[1] == ComponentView::Normal("sys"@)
}

/// The part of a logical path below the sysfs root, or why there is none.
pub open spec fn relative_of(logical: Seq<char>) -> Result<Seq<char>, PlatformErrorView> {
    let c = path_view(logical);
    if !in_sysfs(c) {
        Err(denied(logical, NOT_SYSFS@))
    } else {
        match tail_names(c, c.len()) {
            Some(s) => Ok(s),
            None => Err(denied(logical, NOT_NORMAL@)),
        }
    }
}

/// The physical file of a logical path, given what the system made of the
/// candidate below the root.
pub open spec fn resolution(
    root: Seq<char>,
    logical: Seq<char>,
    canonical: Result<Seq<char>, IoView>,
) -> Result<Seq<char>, PlatformErrorView> {
    match relative_of(logical) {
        Err(e) => Err(e),
        Ok(_) => match canonical {
            Err(source) => Err(
                PlatformErrorView::Io {
                    operation: "canonicalize sysfs path"@,
                    path: logical,
                    source,
                },
            ),
            Ok(found) => if lies_below(found, root) {
                Ok(found)
            } else {
                Err(denied(logical, ESCAPES@))
            },
        },
    }
}

/// What the system made of a path, as the model has it.
pub open spec fn found_view(canonical: Result<String, IoFailure>) -> Result<Seq<char>, IoView> {
    match canonical {
        Ok(s) => Ok(s@),
        Err(e) => Err(e@),
    }
}

proof fn tail_stays_refused(c: Seq<ComponentView>, n: nat, k: nat)
    requires
        n <= k,
        tail_names(c, n) is None,
    ensures
        tail_names(c, k) is None,
    decreases k,
{
    if n < k {
        tail_stays_refused(c, n, (k - 1) as nat);
    }
}

/// A path that was refused.
fn deny(path: &str, reason: &str) -> (e: PlatformError)
    ensures
        e@ == denied(path@, reason@),
{
    PlatformError::AccessDenied { path: path.to_owned(), reason: reason.to_owned() }
}

/// Whether a component is the given name.
fn is_name(c: &Component, name: &str) -> (r: bool)
    ensures
        r == (c@ == ComponentView::Normal(name@)),
{
    match c {
        Component::Normal(s) => same(s.as_str(), name),
        _ => false,
    }
}

/// The part of a logical path below the sysfs root.
pub fn logical_relative(logical: &str) -> (r: PlatformResult<String>)
    ensures
        match r {
            Ok(s) => relative_of(logical@) == Ok::<Seq<char>, PlatformErrorView>(s@),
            Err(e) => relative_of(logical@) == Err::<Seq<char>, PlatformErrorView>(e@),
        },
{
    let c = components(logical);
    let ghost v = path_view(logical@);
    assert(v == seq_view(c@));
    assert(v.len() == c@.len());
    let rooted = c.len() >= 2 && matches!(&c[0], Component::Root) && is_name(&c[1], "sys");
    assert(c@.len() >= 2 ==> v[0] == c@[0]@ && v[1] == c@[1]@);
    assert(rooted == in_sysfs(v));
    if !rooted {
        return Err(deny(logical, NOT_SYSFS));
    }
    let mut out = String::new();
    let mut i: usize = 2;
    assert(out@ =~= Seq::<char>::empty());
    while i < c.len()
        invariant
            2 <= i <= c@.len(),
            v == path_view(logical@),
            v == seq_view(c@),
            in_sysfs(v),
            tail_names(v, i as nat) == Some(out@),
        decreases c@.len() - i,
    {
        assert(v[i as int] == c@[i as int]@);
        match &c[i] {
            Component::Normal(s) => {
                out = if same(out.as_str(), "") {
                    proof {
                        reveal_strlit("");
                    }
                    s.as_str().to_owned()
                } else {
                    proof {
                        reveal_strlit("");
                        assert(out@.len() == 0 ==> out@ =~= ""@);
                    }
                    cat3(out.as_str(), "/", s.as_str())
                };
            },
            _ => {
                proof {
                    tail_stays_refused(v, (i + 1) as nat, v.len());
                }
                return Err(deny(logical, NOT_NORMAL));
            },
        }
        i = i + 1;
    }
    Ok(out)
}

/// A sysfs adapter confined to one physical root. It writes only the files
/// that it was made for.
#[derive(Debug)]
pub struct RootedSysfs {
    root: String,
    writable: Vec<String>,
    read_paths: Table<String>,
}

/// The view of [`RootedSysfs`].
pub struct SysfsView {
    pub root: Seq<char>,
    pub writable: Seq<Seq<char>>,
    pub read_paths: Map<Seq<char>, Seq<char>>,
}

impl SysfsView {
    /// Whether each file that may be written, and each one that is remembered
    /// for reading, lies below the root.
    pub open spec fn confined(self) -> bool {
        &&& forall|i: int|
            0 <= i < self.writable.len() ==> lies_below(#[trigger] self.writable[i], self.root)
        &&& forall|k: Seq<char>|
            self.read_paths.dom().contains(k) ==> lies_below(
                #[trigger] self.read_paths[k],
                self.root,
            )
    }

    /// The same adapter with a file remembered for reading.
    pub open spec fn remembering(self, key: Seq<char>, file: Seq<char>) -> Self {
        SysfsView { read_paths: self.read_paths.insert(key, file), ..self }
    }
}

proof fn remembering_confines(v: SysfsView, key: Seq<char>, file: Seq<char>)
    requires
        lies_below(file, v.root),
    ensures
        v.confined() ==> v.remembering(key, file).confined(),
{
    let w = v.remembering(key, file);
    assert forall|k: Seq<char>| v.confined() && w.read_paths.dom().contains(k) implies lies_below(
        #[trigger] w.read_paths[k],
        w.root,
    ) by {
        if k != key {
            assert(lies_below(v.read_paths[k], v.root));
        }
    }
}

/// What to do for a read.
#[derive(Debug, PartialEq, Eq)]
pub enum ReadStep {
    /// Open this file.
    Open(String),
    /// Find the canonical form of this path.
    Canonicalize(String),
}

/// The view of [`ReadStep`].
pub enum ReadStepView {
    Open(Seq<char>),
    Canonicalize(Seq<char>),
}

impl View for ReadStep {
    type V = ReadStepView;

    open spec fn view(&self) -> ReadStepView {
        match self {
            ReadStep::Open(s) => ReadStepView::Open(s@),
            ReadStep::Canonicalize(s) => ReadStepView::Canonicalize(s@),
        }
    }
}

/// How a read of a logical path begins.
pub open spec fn read_begins(v: SysfsView, logical: Seq<char>) -> Result<
    ReadStepView,
    PlatformErrorView,
> {
    match relative_of(logical) {
        Err(e) => Err(e),
        Ok(key) => Ok(
            if v.read_paths.dom().contains(key) {
                ReadStepView::Open(v.read_paths[key])
            } else {
                ReadStepView::Canonicalize(joined(v.root, key))
            },
        ),
    }
}

/// The adapter that no longer remembers the file of a logical path, where that
/// is the given one.
pub open spec fn forgotten(v: SysfsView, logical: Seq<char>, expected: Seq<char>) -> SysfsView {
    match relative_of(logical) {
        Ok(key) => if v.read_paths.dom().contains(key) && path_view(v.read_paths[key]) == path_view(
            expected,
        ) {
            SysfsView { read_paths: v.read_paths.remove(key), ..v }
        } else {
            v
        },
        Err(_) => v,
    }
}

/// The files that the first `n` allowed paths resolve to; the first that fails
/// decides.
pub open spec fn allowlist(
    root: Seq<char>,
    allowed: Seq<(String, Result<String, IoFailure>)>,
    n: nat,
) -> Result<Seq<Seq<char>>, PlatformErrorView>
    decreases n,
{
    if n == 0 {
        Ok(Seq::empty())
    } else {
        match allowlist(root, allowed, (n - 1) as nat) {
            Err(e) => Err(e),
            Ok(before) => match resolution(
                root,
                allowed[n - 1].0@,
                found_view(allowed[n - 1].1),
            ) {
                Err(e) => Err(e),
                Ok(file) => Ok(
                    if lists_path(before, file) {
                        before
                    } else {
                        before.push(file)
                    },
                ),
            },
        }
    }
}

proof fn allowlist_error_stands(
    root: Seq<char>,
    allowed: Seq<(String, Result<String, IoFailure>)>,
    n: nat,
    k: nat,
)
    requires
        n <= k,
        allowlist(root, allowed, n) is Err,
    ensures
        allowlist(root, allowed, k) == allowlist(root, allowed, n),
    decreases k,
{
    if n < k {
        allowlist_error_stands(root, allowed, n, (k - 1) as nat);
    }
}

/// What a read attribute says: its text without surrounding white space.
pub open spec fn attribute_text(path: Seq<char>, bytes: Seq<u8>) -> Result<
    Seq<char>,
    PlatformErrorView,
> {
    if bytes.len() > MAX_ATTRIBUTE_BYTES {
        Err(malformed(path, "attribute exceeds 65536 bytes"@))
    } else if !valid_utf8(bytes) {
        Err(malformed(path, "not UTF-8: "@ + utf8_error(bytes)))
    } else {
        Ok(trimmed(decode_utf8(bytes)))
    }
}

/// Why a value cannot be written, if so.
pub open spec fn write_fault(path: Seq<char>, value: Seq<char>) -> Option<PlatformErrorView> {
    if encode_utf8(value).len() > MAX_WRITE_BYTES {
        Some(malformed(path, "write exceeds 4096 bytes"@))
    } else if encode_utf8(value).contains(0u8) {
        Some(malformed(path, "write contains a NUL byte"@))
    } else {
        None
    }
}

/// The file that a value may be written to, or why there is none.
pub open spec fn write_target(
    v: SysfsView,
    path: Seq<char>,
    value: Seq<char>,
    canonical: Result<Seq<char>, IoView>,
) -> Result<Seq<char>, PlatformErrorView> {
    match write_fault(path, value) {
        Some(e) => Err(e),
        None => match resolution(v.root, path, canonical) {
            Err(e) => Err(e),
            Ok(file) => if lists_path(v.writable, file) {
                Ok(file)
            } else {
                Err(denied(path, NOT_ALLOWED@))
            },
        },
    }
}

/// What a read attribute says. At most one byte over the limit need be read.
pub fn checked_attribute(path: &str, bytes: &[u8]) -> (r: PlatformResult<String>)
    ensures
        match r {
            Ok(s) => attribute_text(path@, bytes@) == Ok::<Seq<char>, PlatformErrorView>(s@),
            Err(e) => attribute_text(path@, bytes@) == Err::<Seq<char>, PlatformErrorView>(e@),
        },
{
    if bytes.len() > MAX_ATTRIBUTE_BYTES {
        return Err(PlatformError::invalid(path, "attribute exceeds 65536 bytes"));
    }
    match read_utf8(bytes) {
        Err(why) => {
            let message = cat2("not UTF-8: ", why.as_str());
            Err(PlatformError::invalid(path, message.as_str()))
        },
        Ok(s) => Ok(trim(s.as_str())),
    }
}

/// Whether a zero byte is among the bytes.
fn has_nul(bytes: &[u8]) -> (r: bool)
    ensures
        r == bytes@.contains(0u8),
{
    let mut i: usize = 0;
    while i < bytes.len()
        invariant
            i <= bytes@.len(),
            forall|k: int| 0 <= k < i ==> bytes@[k] != 0,
        decreases bytes@.len() - i,
    {
        if bytes[i] == 0 {
            return true;
        }
        i = i + 1;
    }
    false
}

impl View for RootedSysfs {
    type V = SysfsView;

    closed spec fn view(&self) -> SysfsView {
        SysfsView {
            root: self.root@,
            writable: texts(self.writable@),
            read_paths: self.read_paths@,
        }
    }
}

impl RootedSysfs {
    /// A read-only adapter on the canonical form of a root, or the failure to
    /// find it.
    pub fn read_only(requested: &str, canonical: Result<String, IoFailure>) -> (r: PlatformResult<
        Self,
    >)
        ensures
            match canonical {
                Ok(root) => r is Ok && r->Ok_0@ == (SysfsView {
                    root: root@,
                    writable: Seq::empty(),
                    read_paths: Map::empty(),
                }),
                Err(e) => r is Err && r->Err_0@ == (PlatformErrorView::Io {
                    operation: "canonicalize sysfs root"@,
                    path: requested@,
                    source: e@,
                }),
            },
    {
        match canonical {
            Ok(root) => {
                let out = RootedSysfs { root, writable: Vec::new(), read_paths: Table::new() };
                assert(texts(out.writable@) =~= Seq::empty());
                Ok(out)
            },
            Err(e) => Err(PlatformError::io("canonicalize sysfs root", requested, e)),
        }
    }

    /// An adapter that may write only the listed logical files; each comes with
    /// what the system made of its candidate.
    pub fn with_write_allowlist(
        requested: &str,
        canonical: Result<String, IoFailure>,
        allowed: Vec<(String, Result<String, IoFailure>)>,
    ) -> (r: PlatformResult<Self>)
        ensures
            match canonical {
                Ok(root) => match r {
                    Ok(s) => {
                        &&& s@.root == root@
                        &&& s@.read_paths == Map::<Seq<char>, Seq<char>>::empty()
                        &&& s@.confined()
                        &&& allowlist(root@, allowed@, allowed@.len()) == Ok::<
                            Seq<Seq<char>>,
                            PlatformErrorView,
                        >(s@.writable)
                    },
                    Err(e) => allowlist(root@, allowed@, allowed@.len()) == Err::<
                        Seq<Seq<char>>,
                        PlatformErrorView,
                    >(e@),
                },
                Err(e) => r is Err && r->Err_0@ == (PlatformErrorView::Io {
                    operation: "canonicalize sysfs root"@,
                    path: requested@,
                    source: e@,
                }),
            },
    {
        let mut adapter = match RootedSysfs::read_only(requested, canonical) {
            Err(e) => {
                return Err(e);
            },
            Ok(a) => a,
        };
        let ghost start = adapter@;
        let mut left = allowed;
        let ghost all = allowed@;
        let mut n: Ghost<nat> = Ghost(0nat);
        assert(left@ =~= all.skip(0));
        while left.len() > 0
            invariant
                n@ <= all.len(),
                all == allowed@,
                canonical is Ok,
                start.root == canonical->Ok_0@,
                left@ == all.skip(n@ as int),
                adapter@.root == start.root,
                adapter@.read_paths == Map::<Seq<char>, Seq<char>>::empty(),
                adapter@.confined(),
                allowlist(start.root, all, n@) == Ok::<Seq<Seq<char>>, PlatformErrorView>(
                    adapter@.writable,
                ),
            decreases left@.len(),
        {
            let (logical, found) = left.remove(0);
            assert((logical, found) == all[n@ as int]);
            match adapter.resolve_existing(logical.as_str(), found) {
                Err(e) => {
                    proof {
                        allowlist_error_stands(start.root, all, n@ + 1, all.len());
                    }
                    return Err(e);
                },
                Ok(file) => {
                    if !has_path(&adapter.writable, file.as_str()) {
                        let ghost before = adapter@.writable;
                        adapter.writable.push(file);
                        assert(adapter@.writable =~= before.push(file@));
                    }
                },
            }
            n = Ghost(n@ + 1);
            assert(left@ =~= all.skip(n@ as int));
        }
        Ok(adapter)
    }

    /// Physical root used by this adapter.
    pub fn root(&self) -> (r: &str)
        ensures
            r@ == self@.root,
    {
        self.root.as_str()
    }

    /// The path below the root whose canonical form a logical path needs.
    pub fn candidate(&self, logical: &str) -> (r: PlatformResult<String>)
        ensures
            match r {
                Ok(s) => relative_of(logical@) is Ok && s@ == joined(
                    self@.root,
                    relative_of(logical@)->Ok_0,
                ),
                Err(e) => relative_of(logical@) == Err::<Seq<char>, PlatformErrorView>(e@),
            },
    {
        match logical_relative(logical) {
            Err(e) => Err(e),
            Ok(relative) => Ok(join(self.root.as_str(), relative.as_str())),
        }
    }

    /// The physical file of a logical path, given what the system made of its
    /// candidate.
    pub fn resolve_existing(&self, logical: &str, canonical: Result<String, IoFailure>) -> (r:
        PlatformResult<String>)
        ensures
            match r {
                Ok(s) => {
                    &&& resolution(self@.root, logical@, found_view(canonical)) == Ok::<
                        Seq<char>,
                        PlatformErrorView,
                    >(s@)
                    &&& lies_below(s@, self@.root)
                },
                Err(e) => resolution(self@.root, logical@, found_view(canonical)) == Err::<
                    Seq<char>,
                    PlatformErrorView,
                >(e@),
            },
    {
        if let Err(e) = logical_relative(logical) {
            return Err(e);
        }
        match canonical {
            Err(e) => Err(PlatformError::io("canonicalize sysfs path", logical, e)),
            Ok(found) => {
                if is_below(found.as_str(), self.root.as_str()) {
                    Ok(found)
                } else {
                    Err(deny(logical, ESCAPES))
                }
            },
        }
    }

    /// How a read of a logical path begins. The path is checked anew each time,
    /// even where its file is remembered.
    pub fn resolve_read_path(&self, logical: &str) -> (r: PlatformResult<ReadStep>)
        ensures
            match r {
                Ok(s) => read_begins(self@, logical@) == Ok::<ReadStepView, PlatformErrorView>(s@),
                Err(e) => read_begins(self@, logical@) == Err::<ReadStepView, PlatformErrorView>(e@),
            },
    {
        match logical_relative(logical) {
            Err(e) => Err(e),
            Ok(key) => match self.read_paths.get(key.as_str()) {
                Some(file) => Ok(ReadStep::Open(file.as_str().to_owned())),
                None => Ok(ReadStep::Canonicalize(join(self.root.as_str(), key.as_str()))),
            },
        }
    }

    /// Remembers the file of a logical path for later reads, and names it.
    pub fn remember_read_path(&mut self, logical: &str, canonical: Result<String, IoFailure>) -> (r:
        PlatformResult<String>)
        ensures
            match r {
                Ok(s) => {
                    &&& resolution(old(self)@.root, logical@, found_view(canonical)) == Ok::<
                        Seq<char>,
                        PlatformErrorView,
                    >(s@)
                    &&& final(self)@ == old(self)@.remembering(relative_of(logical@)->Ok_0, s@)
                },
                Err(e) => {
                    &&& resolution(old(self)@.root, logical@, found_view(canonical)) == Err::<
                        Seq<char>,
                        PlatformErrorView,
                    >(e@)
                    &&& final(self)@ == old(self)@
                },
            },
            old(self)@.confined() ==> final(self)@.confined(),
    {
        let file = match self.resolve_existing(logical, canonical) {
            Err(e) => {
                return Err(e);
            },
            Ok(f) => f,
        };
        match logical_relative(logical) {
            Err(e) => Err(e),
            Ok(key) => {
                let ghost before = self@;
                let ghost name = key@;
                self.read_paths.insert(key, file.as_str().to_owned());
                proof {
                    remembering_confines(before, name, file@);
                }
                Ok(file)
            },
        }
    }

    /// Forgets the file of a logical path, where that is the given one.
    pub fn invalidate_read_path(&mut self, logical: &str, expected: &str)
        ensures
            final(self)@ == forgotten(old(self)@, logical@, expected@),
            old(self)@.confined() ==> final(self)@.confined(),
    {
        if let Ok(key) = logical_relative(logical) {
            let stale = match self.read_paths.get(key.as_str()) {
                Some(file) => same_path(file.as_str(), expected),
                None => false,
            };
            if stale {
                let ghost before = self@;
                self.read_paths.remove(key.as_str());
                proof {
                    assert forall|k: Seq<char>|
                        before.confined()
                            && self@.read_paths.dom().contains(k) implies lies_below(
                        #[trigger] self@.read_paths[k],
                        self@.root,
                    ) by {
                        assert(lies_below(before.read_paths[k], before.root));
                    }
                }
            }
        }
    }

    /// What follows a failure to open a file for reading: the first time that
    /// the file is missing, the path is resolved anew.
    pub fn open_failed(
        &mut self,
        logical: &str,
        file: &str,
        failure: IoFailure,
        retried: bool,
    ) -> (r: PlatformResult<ReadStep>)
        ensures
            if failure.kind == IoKind::NotFound && !retried {
                &&& final(self)@ == forgotten(old(self)@, logical@, file@)
                &&& match r {
                    Ok(s) => read_begins(final(self)@, logical@) == Ok::<
                        ReadStepView,
                        PlatformErrorView,
                    >(s@),
                    Err(e) => read_begins(final(self)@, logical@) == Err::<
                        ReadStepView,
                        PlatformErrorView,
                    >(e@),
                }
            } else {
                &&& final(self)@ == old(self)@
                &&& r is Err
                &&& r->Err_0@ == (PlatformErrorView::Io {
                    operation: "open for read"@,
                    path: logical@,
                    source: failure@,
                })
            },
            old(self)@.confined() ==> final(self)@.confined(),
    {
        if failure.kind == IoKind::NotFound && !retried {
            self.invalidate_read_path(logical, file);
            self.resolve_read_path(logical)
        } else {
            Err(PlatformError::io("open for read", logical, failure))
        }
    }

    /// The file that a value may be written to, given what the system made of
    /// the candidate of its logical path.
    pub fn authorize_write(&self, path: &str, value: &str, canonical: Result<String, IoFailure>) -> (r:
        PlatformResult<String>)
        ensures
            match r {
                Ok(s) => write_target(self@, path@, value@, found_view(canonical)) == Ok::<
                    Seq<char>,
                    PlatformErrorView,
                >(s@),
                Err(e) => write_target(self@, path@, value@, found_view(canonical)) == Err::<
                    Seq<char>,
                    PlatformErrorView,
                >(e@),
            },
    {
        let bytes = value.as_bytes();
        if bytes.len() > MAX_WRITE_BYTES {
            return Err(PlatformError::invalid(path, "write exceeds 4096 bytes"));
        }
        if has_nul(bytes) {
            return Err(PlatformError::invalid(path, "write contains a NUL byte"));
        }
        match self.resolve_existing(path, canonical) {
            Err(e) => Err(e),
            Ok(file) => {
                if has_path(&self.writable, file.as_str()) {
                    Ok(file)
                } else {
                    Err(deny(path, NOT_ALLOWED))
                }
            },
        }
    }
}

/// An adapter without an allowlist writes nothing, whatever the system makes of
/// a path.
pub proof fn read_only_writes_nothing(
    v: SysfsView,
    path: Seq<char>,
    value: Seq<char>,
    canonical: Result<Seq<char>, IoView>,
)
    requires
        v.writable.len() == 0,
    ensures
        write_target(v, path, value, canonical) is Err,
{
}

/// What is written lies below the root and is on the allowlist.
pub proof fn writes_are_confined(
    v: SysfsView,
    path: Seq<char>,
    value: Seq<char>,
    canonical: Result<Seq<char>, IoView>,
)
    requires
        write_target(v, path, value, canonical) is Ok,
    ensures
        lies_below(write_target(v, path, value, canonical)->Ok_0, v.root),
        lists_path(v.writable, write_target(v, path, value, canonical)->Ok_0),
        canonical == Ok::<Seq<char>, IoView>(write_target(v, path, value, canonical)->Ok_0),
{
}

/// A path that climbs with `..`, or that does not begin at the logical sysfs
/// root, is refused for reading and for writing, remembered or not.
pub proof fn climbing_paths_are_refused(
    v: SysfsView,
    path: Seq<char>,
    value: Seq<char>,
    canonical: Result<Seq<char>, IoView>,
)
    requires
        path_view(path).contains(ComponentView::Parent) || !in_sysfs(path_view(path)),
    ensures
        read_begins(v, path) is Err,
        read_begins(v, path)->Err_0 is AccessDenied,
        write_target(v, path, value, canonical) is Err,
{
    let c = path_view(path);
    if in_sysfs(c) {
        let i = choose|i: int| 0 <= i < c.len() && c[i] == ComponentView::Parent;
        assert(c[i] == ComponentView::Parent);
        assert(i >= 2);
        assert(tail_names(c, (i + 1) as nat) is None);
        tail_stays_refused(c, (i + 1) as nat, c.len());
    }
}

/// A file that was remembered and has since gone is looked for anew.
pub proof fn missing_file_is_looked_for_anew(v: SysfsView, logical: Seq<char>, file: Seq<char>)
    requires
        read_begins(v, logical) == Ok::<ReadStepView, PlatformErrorView>(ReadStepView::Open(file)),
    ensures
        read_begins(forgotten(v, logical, file), logical) is Ok,
        read_begins(forgotten(v, logical, file), logical)->Ok_0 is Canonicalize,
{
}

} // verus!
