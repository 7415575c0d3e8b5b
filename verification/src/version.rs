//! Semantic versions: major.minor.patch with an optional pre-release
//! tag and optional build metadata, totally ordered by semantic-version
//! precedence.  Build metadata never takes part in the order.

use vstd::prelude::*;
use crate::text::dec_rep;
use crate::text::str_lt;
use crate::text::text_lt;

verus! {

/// One dot-separated identifier of a pre-release tag: numeric
/// identifiers compare by value and order below alphanumeric ones;
/// alphanumeric identifiers compare lexically by code point.
#[derive(Debug, Clone, PartialEq, Eq)]
pub enum PreIdent {
    Num(u64),
    Alpha(String),
}

/// Specification-level image of a `PreIdent`.
pub enum PreIdentView {
    Num(u64),
    Alpha(Seq<char>),
}

impl View for PreIdent {
    type V = PreIdentView;

    open spec fn view(&self) -> PreIdentView {
        match self {
            PreIdent::Num(n) => PreIdentView::Num(*n),
            PreIdent::Alpha(s) => PreIdentView::Alpha(s@),
        }
    }
}

impl DeepView for PreIdent {
    type V = PreIdentView;

    open spec fn deep_view(&self) -> PreIdentView {
        self.view()
    }
}

/// A semantic version.
#[derive(Debug, Clone, PartialEq, Eq)]
pub struct Version {
    pub major: u64,
    pub minor: u64,
    pub patch: u64,
    pub pre: Vec<PreIdent>,
    pub build: Vec<String>,
}

/// Specification-level image of a `Version`.
#[verifier::ext_equal]
pub struct VersionView {
    pub major: u64,
    pub minor: u64,
    pub patch: u64,
    pub pre: Seq<PreIdentView>,
    pub build: Seq<Seq<char>>,
}

impl View for Version {
    type V = VersionView;

    open spec fn view(&self) -> VersionView {
        VersionView {
            major: self.major,
            minor: self.minor,
            patch: self.patch,
            pre: self.pre.deep_view(),
            build: self.build.deep_view(),
        }
    }
}

impl DeepView for Version {
    type V = VersionView;

    open spec fn deep_view(&self) -> VersionView {
        self.view()
    }
}

/// Order of two pre-release identifiers: numeric before alphanumeric,
/// numerics by value, alphanumerics by code point.
pub open spec fn ident_lt(a: PreIdentView, b: PreIdentView) -> bool {
    match (a, b) {
        (PreIdentView::Num(x), PreIdentView::Num(y)) => x < y,
        (PreIdentView::Num(_), PreIdentView::Alpha(_)) => true,
        (PreIdentView::Alpha(_), PreIdentView::Num(_)) => false,
        (PreIdentView::Alpha(x), PreIdentView::Alpha(y)) => text_lt(x, y),
    }
}

/// Lexicographic order of two pre-release identifier lists; a strict
/// prefix orders below the longer list.
pub open spec fn idents_lt(a: Seq<PreIdentView>, b: Seq<PreIdentView>) -> bool
    decreases a.len(),
{
    if b.len() == 0 {
        false
    } else if a.len() == 0 {
        true
    } else if a[0] == b[0] {
        idents_lt(a.drop_first(), b.drop_first())
    } else {
        ident_lt(a[0], b[0])
    }
}

/// Order of two pre-release tags: a version carrying a pre-release tag
/// orders below the same core version without one.
pub open spec fn pre_lt(a: Seq<PreIdentView>, b: Seq<PreIdentView>) -> bool {
    if a.len() == 0 {
        false
    } else if b.len() == 0 {
        true
    } else {
        idents_lt(a, b)
    }
}

/// Semantic-version precedence: major, then minor, then patch, then
/// pre-release order.
pub open spec fn version_lt(a: VersionView, b: VersionView) -> bool {
    if a.major != b.major {
        a.major < b.major
    } else if a.minor != b.minor {
        a.minor < b.minor
    } else if a.patch != b.patch {
        a.patch < b.patch
    } else {
        pre_lt(a.pre, b.pre)
    }
}

/// No pre-release identifier orders below itself.
proof fn lemma_ident_lt_irreflexive(a: PreIdentView)
    ensures
        !ident_lt(a, a),
{
    match a {
        PreIdentView::Num(_) => {},
        PreIdentView::Alpha(s) => {
            crate::text::lemma_text_lt_irreflexive(s);
        },
    }
}

/// Any two pre-release identifiers are ordered or equal.
proof fn lemma_ident_lt_trichotomy(a: PreIdentView, b: PreIdentView)
    ensures
        ident_lt(a, b) || ident_lt(b, a) || a == b,
{
    match (a, b) {
        (PreIdentView::Alpha(x), PreIdentView::Alpha(y)) => {
            crate::text::lemma_text_lt_trichotomy(x, y);
        },
        _ => {},
    }
}

/// The identifier order is transitive.
proof fn lemma_ident_lt_transitive(a: PreIdentView, b: PreIdentView, c: PreIdentView)
    requires
        ident_lt(a, b),
        ident_lt(b, c),
    ensures
        ident_lt(a, c),
{
    match (a, b, c) {
        (PreIdentView::Alpha(x), PreIdentView::Alpha(y), PreIdentView::Alpha(z)) => {
            crate::text::lemma_text_lt_transitive(x, y, z);
        },
        _ => {},
    }
}

/// No identifier list orders below itself.
proof fn lemma_idents_lt_irreflexive(a: Seq<PreIdentView>)
    ensures
        !idents_lt(a, a),
    decreases a.len(),
{
    if a.len() > 0 {
        lemma_idents_lt_irreflexive(a.drop_first());
    }
}

/// Any two identifier lists are ordered or equal.
proof fn lemma_idents_lt_trichotomy(a: Seq<PreIdentView>, b: Seq<PreIdentView>)
    ensures
        idents_lt(a, b) || idents_lt(b, a) || a == b,
    decreases a.len(),
{
    if b.len() == 0 && a.len() == 0 {
        assert(a =~= b);
    } else if b.len() == 0 {
        assert(idents_lt(b, a));
    } else if a.len() == 0 {
        assert(idents_lt(a, b));
    } else if a[0] == b[0] {
        lemma_idents_lt_trichotomy(a.drop_first(), b.drop_first());
        if idents_lt(a.drop_first(), b.drop_first()) {
            assert(idents_lt(a, b));
        } else if idents_lt(b.drop_first(), a.drop_first()) {
            assert(idents_lt(b, a));
        } else {
            assert(a.drop_first() == b.drop_first());
            assert(a.len() == b.len());
            assert forall|i: int| 0 <= i < a.len() implies a[i] == b[i] by {
                if i > 0 {
                    assert(a.drop_first()[i - 1] == b.drop_first()[i - 1]);
                    assert(a[i] == a.drop_first()[i - 1]);
                    assert(b[i] == b.drop_first()[i - 1]);
                }
            }
            assert(a =~= b);
        }
    } else {
        lemma_ident_lt_trichotomy(a[0], b[0]);
        if ident_lt(a[0], b[0]) {
            assert(idents_lt(a, b));
        } else {
            assert(ident_lt(b[0], a[0]));
            assert(idents_lt(b, a));
        }
    }
}

/// The identifier-list order is transitive.
proof fn lemma_idents_lt_transitive(
    a: Seq<PreIdentView>,
    b: Seq<PreIdentView>,
    c: Seq<PreIdentView>,
)
    requires
        idents_lt(a, b),
        idents_lt(b, c),
    ensures
        idents_lt(a, c),
    decreases a.len() + b.len() + c.len(),
{
    if a.len() > 0 {
        if a[0] == b[0] && b[0] == c[0] {
            lemma_idents_lt_transitive(a.drop_first(), b.drop_first(), c.drop_first());
        } else if a[0] == b[0] {
            if a[0] == c[0] {
                lemma_ident_lt_irreflexive(b[0]);
            }
        } else if b[0] == c[0] {
            if a[0] == c[0] {
                lemma_ident_lt_irreflexive(a[0]);
            }
        } else {
            lemma_ident_lt_transitive(a[0], b[0], c[0]);
            if a[0] == c[0] {
                lemma_ident_lt_irreflexive(a[0]);
            }
        }
    }
}

/// Precedence never puts a version below itself.
pub proof fn lemma_version_order_irreflexive(a: VersionView)
    ensures
        !version_lt(a, a),
{
    if a.pre.len() > 0 {
        lemma_idents_lt_irreflexive(a.pre);
    }
}

/// Precedence orders any two versions, or they agree on every part
/// that takes part in precedence; build metadata never does.
pub proof fn lemma_version_order_trichotomy(a: VersionView, b: VersionView)
    ensures
        version_lt(a, b) || version_lt(b, a) || (a.major == b.major && a.minor == b.minor
            && a.patch == b.patch && a.pre == b.pre),
{
    if a.major == b.major && a.minor == b.minor && a.patch == b.patch {
        if a.pre.len() > 0 && b.pre.len() > 0 {
            lemma_idents_lt_trichotomy(a.pre, b.pre);
        } else if a.pre.len() == 0 && b.pre.len() == 0 {
            assert(a.pre =~= b.pre);
        }
    }
}

/// Precedence is transitive.  With irreflexivity and trichotomy this
/// makes it a total order on versions up to build metadata.
pub proof fn lemma_version_order_transitive(a: VersionView, b: VersionView, c: VersionView)
    requires
        version_lt(a, b),
        version_lt(b, c),
    ensures
        version_lt(a, c),
{
    if a.major == c.major && a.minor == c.minor && a.patch == c.patch {
        assert(a.major == b.major && a.minor == b.minor && a.patch == b.patch);
        assert(pre_lt(a.pre, b.pre));
        assert(pre_lt(b.pre, c.pre));
        if c.pre.len() > 0 {
            lemma_idents_lt_transitive(a.pre, b.pre, c.pre);
        }
    }
}

/// Decides view equality of two pre-release identifiers.
fn pre_ident_eq(a: &PreIdent, b: &PreIdent) -> (r: bool)
    ensures
        r == (a@ == b@),
{
    match (a, b) {
        (PreIdent::Num(x), PreIdent::Num(y)) => *x == *y,
        (PreIdent::Alpha(x), PreIdent::Alpha(y)) => crate::text::str_eq(x.as_str(), y.as_str()),
        _ => false,
    }
}

/// Decides `ident_lt` on two pre-release identifiers.
fn pre_ident_lt(a: &PreIdent, b: &PreIdent) -> (r: bool)
    ensures
        r == ident_lt(a@, b@),
{
    match (a, b) {
        (PreIdent::Num(x), PreIdent::Num(y)) => *x < *y,
        (PreIdent::Num(_), PreIdent::Alpha(_)) => true,
        (PreIdent::Alpha(_), PreIdent::Num(_)) => false,
        (PreIdent::Alpha(x), PreIdent::Alpha(y)) => str_lt(x.as_str(), y.as_str()),
    }
}

/// Decides `idents_lt` on two pre-release identifier lists.
fn pre_idents_lt(a: &Vec<PreIdent>, b: &Vec<PreIdent>) -> (r: bool)
    ensures
        r == idents_lt(a.deep_view(), b.deep_view()),
{
    proof {
        assert(a.deep_view().skip(0) =~= a.deep_view());
        assert(b.deep_view().skip(0) =~= b.deep_view());
    }
    let mut i: usize = 0;
    loop
        invariant
            i <= a.len(),
            i <= b.len(),
            a.len() == a.deep_view().len(),
            b.len() == b.deep_view().len(),
            idents_lt(a.deep_view(), b.deep_view()) == idents_lt(
                a.deep_view().skip(i as int),
                b.deep_view().skip(i as int),
            ),
        decreases a.len() - i,
    {
        if i == b.len() {
            assert(b.deep_view().skip(i as int).len() == 0);
            return false;
        }
        if i == a.len() {
            assert(a.deep_view().skip(i as int).len() == 0);
            return true;
        }
        let ai = &a[i];
        let bi = &b[i];
        assert(a.deep_view().skip(i as int)[0] == a.deep_view()[i as int]);
        assert(b.deep_view().skip(i as int)[0] == b.deep_view()[i as int]);
        if pre_ident_eq(ai, bi) {
            proof {
                assert(a.deep_view().skip(i as int).drop_first() =~= a.deep_view().skip(i + 1));
                assert(b.deep_view().skip(i as int).drop_first() =~= b.deep_view().skip(i + 1));
            }
            i = i + 1;
        } else {
            return pre_ident_lt(ai, bi);
        }
    }
}

impl Version {
    /// Builds a version from its three numeric components, with no
    /// pre-release tag and no build metadata.
    pub fn release(major: u64, minor: u64, patch: u64) -> (r: Version)
        ensures
            r@.major == major,
            r@.minor == minor,
            r@.patch == patch,
            r@.pre.len() == 0,
            r@.build.len() == 0,
    {
        let r = Version { major, minor, patch, pre: Vec::new(), build: Vec::new() };
        proof {
            assert(r@.pre =~= Seq::<PreIdentView>::empty());
            assert(r@.build =~= Seq::<Seq<char>>::empty());
        }
        r
    }

    /// Decides whether `self` strictly precedes `other` in
    /// semantic-version precedence.
    pub fn precedes(&self, other: &Version) -> (r: bool)
        ensures
            r == version_lt(self@, other@),
    {
        if self.major != other.major {
            self.major < other.major
        } else if self.minor != other.minor {
            self.minor < other.minor
        } else if self.patch != other.patch {
            self.patch < other.patch
        } else if self.pre.len() == 0 {
            false
        } else if other.pre.len() == 0 {
            true
        } else {
            pre_idents_lt(&self.pre, &other.pre)
        }
    }
}

/// Clones one pre-release identifier, keeping its view.
fn clone_pre_ident(p: &PreIdent) -> (r: PreIdent)
    ensures
        r@ == p@,
{
    match p {
        PreIdent::Num(n) => PreIdent::Num(*n),
        PreIdent::Alpha(s) => PreIdent::Alpha(s.clone()),
    }
}

/// Clones a version, keeping its view.
pub fn clone_version(v: &Version) -> (r: Version)
    ensures
        r@ == v@,
{
    let mut pre: Vec<PreIdent> = Vec::new();
    let mut i: usize = 0;
    while i < v.pre.len()
        invariant
            i <= v.pre.len(),
            pre@.len() == i,
            forall|j: int| 0 <= j < i ==> pre@[j]@ == v.pre@[j]@,
        decreases v.pre.len() - i,
    {
        pre.push(clone_pre_ident(&v.pre[i]));
        i = i + 1;
    }
    let mut build: Vec<String> = Vec::new();
    let mut j: usize = 0;
    while j < v.build.len()
        invariant
            j <= v.build.len(),
            build@.len() == j,
            forall|k: int| 0 <= k < j ==> build@[k]@ == v.build@[k]@,
        decreases v.build.len() - j,
    {
        build.push(v.build[j].clone());
        j = j + 1;
    }
    let r = Version { major: v.major, minor: v.minor, patch: v.patch, pre, build };
    proof {
        assert forall|k: int| 0 <= k < pre@.len() implies pre.deep_view()[k]
            == v.pre.deep_view()[k] by {
            assert(pre@[k]@ == v.pre@[k]@);
        }
        assert(pre.deep_view() =~= v.pre.deep_view());
        assert forall|k: int| 0 <= k < build@.len() implies build.deep_view()[k]
            == v.build.deep_view()[k] by {
            assert(build@[k]@ == v.build@[k]@);
        }
        assert(build.deep_view() =~= v.build.deep_view());
        assert(r@ =~= v@);
    }
    r
}

/// Rendering of one pre-release identifier.
pub open spec fn ident_text(p: PreIdentView) -> Seq<char> {
    match p {
        PreIdentView::Num(n) => dec_rep(n as nat),
        PreIdentView::Alpha(s) => s,
    }
}

/// Rendering of a dot-separated identifier list, continuing after a
/// first identifier that has already been rendered.
pub open spec fn idents_text_tail(s: Seq<Seq<char>>) -> Seq<char>
    decreases s.len(),
{
    if s.len() == 0 {
        Seq::empty()
    } else {
        idents_text_tail(s.drop_last()) + "."@ + s.last()
    }
}

/// Rendering of the pre-release identifiers, dot separated.
pub open spec fn pre_text(s: Seq<PreIdentView>) -> Seq<char> {
    if s.len() == 0 {
        Seq::empty()
    } else {
        ident_text(s[0]) + idents_text_tail(s.skip(1).map_values(|p: PreIdentView| ident_text(p)))
    }
}

/// Full rendering of a version: `major.minor.patch`, then the
/// pre-release tag after `-`, then the build metadata after `+`.
pub open spec fn version_text(v: VersionView) -> Seq<char> {
    dec_rep(v.major as nat) + "."@ + dec_rep(v.minor as nat) + "."@ + dec_rep(v.patch as nat)
        + (if v.pre.len() == 0 {
        Seq::<char>::empty()
    } else {
        "-"@ + pre_text(v.pre)
    }) + (if v.build.len() == 0 {
        Seq::<char>::empty()
    } else {
        "+"@ + (v.build[0] + idents_text_tail(v.build.skip(1)))
    })
}

/// Renders one pre-release identifier.
fn ident_to_string(p: &PreIdent) -> (r: String)
    ensures
        r@ == ident_text(p@),
{
    match p {
        PreIdent::Num(n) => crate::text::u64_to_string(*n),
        PreIdent::Alpha(s) => s.clone(),
    }
}

impl Version {
    /// Renders the version as text, matching `version_text`.
    pub fn to_text(&self) -> (r: String)
        ensures
            r@ == version_text(self@),
    {
        let mut s = crate::text::u64_to_string(self.major);
        s.append(".");
        let minor_s = crate::text::u64_to_string(self.minor);
        s.append(minor_s.as_str());
        s.append(".");
        let patch_s = crate::text::u64_to_string(self.patch);
        s.append(patch_s.as_str());
        let ghost core: Seq<char> = dec_rep(self.major as nat) + "."@ + dec_rep(self.minor as nat)
            + "."@ + dec_rep(self.patch as nat);
        assert(s@ == core);
        if self.pre.len() > 0 {
            s.append("-");
            let first = ident_to_string(&self.pre[0]);
            s.append(first.as_str());
            let ghost idents: Seq<Seq<char>> = self.pre.deep_view().skip(1).map_values(
                |p: PreIdentView| ident_text(p),
            );
            let ghost done: Seq<Seq<char>> = idents.take(0);
            assert(s@ == core + "-"@ + ident_text(self.pre.deep_view()[0]) + idents_text_tail(
                done,
            )) by {
                assert(idents_text_tail(idents.take(0)) =~= Seq::<char>::empty());
            }
            let mut i: usize = 1;
            while i < self.pre.len()
                invariant
                    1 <= i <= self.pre.len(),
                    self.pre.deep_view().len() == self.pre.len(),
                    s@ == core + "-"@ + ident_text(self.pre.deep_view()[0]) + idents_text_tail(
                        self.pre.deep_view().skip(1).map_values(|p: PreIdentView| ident_text(p)).take(
                            i - 1,
                        ),
                    ),
                decreases self.pre.len() - i,
            {
                s.append(".");
                let part = ident_to_string(&self.pre[i]);
                s.append(part.as_str());
                proof {
                    let idents2 = self.pre.deep_view().skip(1).map_values(
                        |p: PreIdentView| ident_text(p),
                    );
                    assert(idents2.take(i as int).drop_last() =~= idents2.take(i - 1));
                    assert(idents2.take(i as int).last() == ident_text(self.pre.deep_view()[i as int]));
                    assert(s@ =~= core + "-"@ + ident_text(self.pre.deep_view()[0])
                        + idents_text_tail(idents2.take(i as int)));
                }
                i = i + 1;
            }
            proof {
                let idents3 = self.pre.deep_view().skip(1).map_values(
                    |p: PreIdentView| ident_text(p),
                );
                assert(idents3.take(self.pre.len() - 1) =~= idents3);
            }
        }
        if self.build.len() > 0 {
            s.append("+");
            s.append(self.build[0].as_str());
            let ghost with_pre: Seq<char> = core + (if self.pre.deep_view().len() == 0 {
                Seq::<char>::empty()
            } else {
                "-"@ + pre_text(self.pre.deep_view())
            });
            assert(s@ == with_pre + "+"@ + self.build.deep_view()[0] + idents_text_tail(
                self.build.deep_view().skip(1).take(0),
            )) by {
                assert(idents_text_tail(self.build.deep_view().skip(1).take(0)) =~= Seq::<
                    char,
                >::empty());
            }
            let mut k: usize = 1;
            while k < self.build.len()
                invariant
                    1 <= k <= self.build.len(),
                    self.build.deep_view().len() == self.build.len(),
                    s@ == with_pre + "+"@ + self.build.deep_view()[0] + idents_text_tail(
                        self.build.deep_view().skip(1).take(k - 1),
                    ),
                decreases self.build.len() - k,
            {
                s.append(".");
                s.append(self.build[k].as_str());
                proof {
                    let parts = self.build.deep_view().skip(1);
                    assert(parts.take(k as int).drop_last() =~= parts.take(k - 1));
                    assert(parts.take(k as int).last() == self.build.deep_view()[k as int]);
                    assert(s@ =~= with_pre + "+"@ + self.build.deep_view()[0] + idents_text_tail(
                        parts.take(k as int),
                    ));
                }
                k = k + 1;
            }
            proof {
                assert(self.build.deep_view().skip(1).take(self.build.len() - 1) =~= self
                    .build
                    .deep_view()
                    .skip(1));
            }
        }
        proof {
            assert(s@ =~= version_text(self@));
        }
        s
    }
}

} // verus!
