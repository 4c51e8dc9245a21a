//! Record shapes across schema versions, their mathematical views, and the
//! per-record transformations: the last-space split heuristic that turns a
//! raw byte-string name into a first/last pair, and the upgrade that adds an
//! account status to an already-split name.

use vstd::prelude::*;

verus! {

/// The byte this engine splits names on: a single ASCII space.
pub const SPACE: u8 = 32;

/// The status added to every record by the step that introduces it.
#[derive(Clone, Copy, Debug, PartialEq, Eq, Structural)]
pub enum AccountStatus {
    Active,
    Inactive,
    Undefined,
}

impl Default for AccountStatus {
    /// Migrated records default to `Active`; the other members exist for
    /// future use and are never produced by a migration.
    fn default() -> (r: Self)
        ensures
            r == AccountStatus::Active,
    {
        AccountStatus::Active
    }
}

/// Mathematical view of a split name: a first segment and an optional last
/// segment, both byte sequences.
#[verifier::ext_equal]
pub ghost struct NickView {
    pub first: Seq<u8>,
    pub last: Option<Seq<u8>>,
}

/// Mathematical view of a current-schema record: a split name plus a status.
#[verifier::ext_equal]
pub ghost struct NicknameView {
    pub name: NickView,
    pub status: AccountStatus,
}

/// Mathematical view of a stored record, tagged by the schema it was written
/// under.
#[verifier::ext_equal]
pub ghost enum RecordView {
    /// Schema 0: an unparsed byte-string name.
    Raw(Seq<u8>),
    /// Schema 1: a name split into first and optional last segments.
    Named(NickView),
    /// Schema 2: the split name together with an account status.
    Current(NicknameView),
}

/// A schema-1 name, as written by the step that splits raw names.
pub struct NickName {
    pub first: Vec<u8>,
    pub last: Option<Vec<u8>>,
}

/// A schema-1 name, as read back by the step that upgrades it to schema 2.
pub struct OldNickname {
    pub first: Vec<u8>,
    pub last: Option<Vec<u8>>,
}

/// A current-schema name: the split segments plus the account status.
pub struct Nickname {
    pub first: Vec<u8>,
    pub last: Option<Vec<u8>>,
    pub third: AccountStatus,
}

/// A stored record in any of the three schema shapes.
pub enum Record {
    Raw(Vec<u8>),
    Named(NickName),
    Current(Nickname),
}

pub open spec fn opt_bytes_view(o: Option<Vec<u8>>) -> Option<Seq<u8>> {
    match o {
        Some(v) => Some(v@),
        None => None,
    }
}

impl View for NickName {
    type V = NickView;

    open spec fn view(&self) -> NickView {
        NickView { first: self.first@, last: opt_bytes_view(self.last) }
    }
}

impl View for OldNickname {
    type V = NickView;

    open spec fn view(&self) -> NickView {
        NickView { first: self.first@, last: opt_bytes_view(self.last) }
    }
}

impl View for Nickname {
    type V = NicknameView;

    open spec fn view(&self) -> NicknameView {
        NicknameView {
            name: NickView { first: self.first@, last: opt_bytes_view(self.last) },
            status: self.third,
        }
    }
}

impl View for Record {
    type V = RecordView;

    open spec fn view(&self) -> RecordView {
        match self {
            Record::Raw(name) => RecordView::Raw(name@),
            Record::Named(n) => RecordView::Named(n@),
            Record::Current(n) => RecordView::Current(n@),
        }
    }
}

/// A split name respects the configured capacity bound.
pub open spec fn nick_wf(n: NickView, max: int) -> bool {
    &&& n.first.len() <= max
    &&& match n.last {
        Some(l) => l.len() <= max,
        None => true,
    }
}

/// A record respects the configured capacity bound, whatever its schema.
pub open spec fn record_wf(r: RecordView, max: int) -> bool {
    match r {
        RecordView::Raw(name) => name.len() <= max,
        RecordView::Named(n) => nick_wf(n, max),
        RecordView::Current(c) => nick_wf(c.name, max),
    }
}

/// The index of the last space in `s`, or -1 if `s` holds no space.
pub open spec fn rfind_space(s: Seq<u8>) -> int
    decreases s.len(),
{
    if s.len() == 0 {
        -1
    } else if s[s.len() - 1] == SPACE {
        s.len() - 1
    } else {
        rfind_space(s.drop_last())
    }
}

/// What splitting a raw name on its last space yields: everything before the
/// split becomes the first segment, everything after becomes the last
/// segment; with no space at all, the whole name is the first segment and
/// the last segment is absent.
pub open spec fn split_view(s: Seq<u8>) -> NickView {
    let p = rfind_space(s);
    if p < 0 {
        NickView { first: s, last: None }
    } else {
        NickView {
            first: s.subrange(0, p),
            last: Some(s.subrange(p + 1, s.len() as int)),
        }
    }
}

/// A name without any space has no last space to find.
pub proof fn lemma_rfind_space_none(s: Seq<u8>)
    requires
        forall|i: int| 0 <= i < s.len() ==> s[i] != SPACE,
    ensures
        rfind_space(s) == -1,
    decreases s.len(),
{
    if s.len() > 0 {
        lemma_rfind_space_none(s.drop_last());
    }
}

/// A space at `k` with no space after it is the last space.
pub proof fn lemma_rfind_space_at(s: Seq<u8>, k: int)
    requires
        0 <= k < s.len(),
        s[k] == SPACE,
        forall|i: int| k < i < s.len() ==> s[i] != SPACE,
    ensures
        rfind_space(s) == k,
    decreases s.len(),
{
    if k == s.len() - 1 {
    } else {
        lemma_rfind_space_at(s.drop_last(), k);
    }
}

/// The position of the last space, when there is one, lies inside the name.
pub proof fn lemma_rfind_space_in_range(s: Seq<u8>)
    ensures
        -1 <= rfind_space(s) < s.len(),
        rfind_space(s) >= 0 ==> s[rfind_space(s)] == SPACE,
    decreases s.len(),
{
    if s.len() > 0 && s[s.len() - 1] != SPACE {
        lemma_rfind_space_in_range(s.drop_last());
    }
}

/// Copy `src[from..to]` into a fresh vector.
fn copy_range(src: &Vec<u8>, from: usize, to: usize) -> (r: Vec<u8>)
    requires
        from <= to <= src@.len(),
    ensures
        r@ == src@.subrange(from as int, to as int),
{
    let mut r: Vec<u8> = Vec::new();
    let mut i: usize = from;
    while i < to
        invariant
            from <= i <= to <= src@.len(),
            r@ == src@.subrange(from as int, i as int),
        decreases to - i,
    {
        r.push(src[i]);
        proof {
            assert(r@ =~= src@.subrange(from as int, i + 1 as int));
        }
        i = i + 1;
    }
    r
}

/// Split a raw byte-string name on the last occurrence of a space.
///
/// Everything before the split becomes `first`, everything after becomes
/// `last`; if no space exists the whole name becomes `first` and `last` is
/// absent.  This is a deliberate, lossy heuristic: multi-space names always
/// split at the rightmost space.
pub fn split_name(name: &Vec<u8>) -> (r: NickName)
    ensures
        r@ == split_view(name@),
{
    let n = name.len();
    let mut j: usize = n;
    while j > 0 && name[j - 1] != SPACE
        invariant
            j <= n,
            n == name@.len(),
            forall|i: int| j <= i < n ==> name@[i] != SPACE,
        decreases j,
    {
        j = j - 1;
    }
    if j == 0 {
        proof {
            lemma_rfind_space_none(name@);
        }
        let first = copy_range(name, 0, n);
        proof {
            assert(first@ =~= name@);
            assert(NickName { first, last: None::<Vec<u8>> }@ =~= split_view(name@));
        }
        NickName { first, last: None }
    } else {
        let k = j - 1;
        proof {
            lemma_rfind_space_at(name@, k as int);
        }
        let first = copy_range(name, 0, k);
        let last = copy_range(name, k + 1, n);
        let r = NickName { first, last: Some(last) };
        proof {
            assert(r@ =~= split_view(name@));
        }
        r
    }
}

impl OldNickname {
    /// Upgrade a schema-1 name to the current schema: segments are copied
    /// verbatim and the status is set to the default, `Active`,
    /// unconditionally.
    pub fn migrate_to_v2(self) -> (r: Nickname)
        ensures
            r@.name == self@,
            r@.status == AccountStatus::Active,
    {
        Nickname { first: self.first, last: self.last, third: AccountStatus::default() }
    }
}

} // verus!
