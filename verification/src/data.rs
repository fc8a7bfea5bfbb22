use vstd::prelude::*;

use crate::error::Error;
use crate::text::{concat, push_char};
use crate::version::{is_version, semver_parse, parts_view, version_order, version_text, Version, VersionView};

verus! {

/// How an installed version stands against the latest one on crates.io.
#[derive(Debug, PartialEq, Eq)]
pub enum VersionCheck {
    /// The latest version, which is newer than the installed one.
    NewerAvailable(Version),
    /// The installed version is the latest one.
    UpToDate,
    /// The installed version is newer than the latest one.
    LocalNewer,
    /// The crate could not be looked up on crates.io.
    UnAvailable,
}

/// The mathematical value of a [`VersionCheck`].
pub enum CheckView {
    NewerAvailable(VersionView),
    UpToDate,
    LocalNewer,
    UnAvailable,
}

impl View for VersionCheck {
    type V = CheckView;

    open spec fn view(&self) -> CheckView {
        match self {
            VersionCheck::NewerAvailable(v) => CheckView::NewerAvailable(v@),
            VersionCheck::UpToDate => CheckView::UpToDate,
            VersionCheck::LocalNewer => CheckView::LocalNewer,
            VersionCheck::UnAvailable => CheckView::UnAvailable,
        }
    }
}

/// The status that an installed version `installed` has when the latest version is `latest`.
pub open spec fn check_against(installed: VersionView, latest: VersionView) -> CheckView {
    let o = version_order(installed, latest);
    if o < 0 {
        CheckView::NewerAvailable(latest)
    } else if o > 0 {
        CheckView::LocalNewer
    } else {
        CheckView::UpToDate
    }
}

/// The place of a status in the order of `VersionCheck`: its variants in the order declared.
pub open spec fn check_rank(c: CheckView) -> int {
    match c {
        CheckView::NewerAvailable(_) => 0,
        CheckView::UpToDate => 1,
        CheckView::LocalNewer => 2,
        CheckView::UnAvailable => 3,
    }
}

/// The order of `VersionCheck` as `-1`, `0` or `1`: by variant in the order declared, and two
/// newer versions by the order of versions.
pub open spec fn check_order(a: CheckView, b: CheckView) -> int {
    if check_rank(a) != check_rank(b) {
        if check_rank(a) < check_rank(b) { -1 } else { 1 }
    } else {
        match (a, b) {
            (CheckView::NewerAvailable(x), CheckView::NewerAvailable(y)) => version_order(x, y),
            _ => 0,
        }
    }
}

/// Whether a status reports a newer version.
pub open spec fn has_update(c: CheckView) -> bool {
    c is NewerAvailable
}

impl Default for VersionCheck {
    /// A crate is taken to be unavailable until it has been looked up.
    fn default() -> (r: VersionCheck)
        ensures
            r@ == CheckView::UnAvailable,
    {
        VersionCheck::UnAvailable
    }
}

/// A status whose newer version, where it has one, semver accepts.
pub open spec fn check_ok(c: CheckView) -> bool {
    c matches CheckView::NewerAvailable(v) ==> is_version(v)
}

/// A package whose versions semver accepts.
pub open spec fn package_ok(p: PackageView) -> bool {
    is_version(p.version) && check_ok(p.info)
}

impl Clone for VersionCheck {
    fn clone(&self) -> (r: VersionCheck)
        ensures
            r@ == self@,
            check_ok(self@),
    {
        match self {
            VersionCheck::NewerAvailable(v) => VersionCheck::NewerAvailable(v.clone()),
            VersionCheck::UpToDate => VersionCheck::UpToDate,
            VersionCheck::LocalNewer => VersionCheck::LocalNewer,
            VersionCheck::UnAvailable => VersionCheck::UnAvailable,
        }
    }
}

/// A colour of the text of a table cell.
#[derive(Debug, PartialEq, Eq, Clone, Copy)]
pub enum CellColor {
    Green,
    Red,
    Blue,
}

/// A text attribute of a table cell.
#[derive(Debug, PartialEq, Eq, Clone, Copy)]
pub enum CellAttribute {
    Bold,
    Dim,
}

/// A table cell: its text, the colour of the text and its attributes.
#[derive(Debug, PartialEq, Eq)]
pub struct StyledCell {
    pub content: String,
    pub color: Option<CellColor>,
    pub attributes: Vec<CellAttribute>,
}

/// The mathematical value of a [`StyledCell`].
pub struct CellView {
    pub content: Seq<char>,
    pub color: Option<CellColor>,
    pub attributes: Seq<CellAttribute>,
}

impl View for StyledCell {
    type V = CellView;

    open spec fn view(&self) -> CellView {
        CellView { content: self.content@, color: self.color, attributes: self.attributes@ }
    }
}

/// A cell with the given text, no colour and no attribute.
pub open spec fn plain_cell(content: Seq<char>) -> CellView {
    CellView { content, color: None, attributes: Seq::empty() }
}

/// The cell that shows a status.
pub open spec fn status_cell(c: CheckView) -> CellView {
    match c {
        CheckView::LocalNewer => CellView {
            content: "No Update"@,
            color: None,
            attributes: seq![CellAttribute::Dim],
        },
        CheckView::NewerAvailable(v) => CellView {
            content: "Update Available ("@ + version_text(v) + ")"@,
            color: Some(CellColor::Green),
            attributes: seq![CellAttribute::Bold],
        },
        CheckView::UnAvailable => CellView {
            content: "Not Available"@,
            color: Some(CellColor::Red),
            attributes: Seq::empty(),
        },
        CheckView::UpToDate => CellView {
            content: "Up to date"@,
            color: Some(CellColor::Blue),
            attributes: Seq::empty(),
        },
    }
}

impl StyledCell {
    /// A cell with the given text, no colour and no attribute.
    pub fn new(content: &str) -> (r: StyledCell)
        ensures
            r@ == plain_cell(content@),
    {
        StyledCell { content: content.to_owned(), color: None, attributes: Vec::new() }
    }

    /// The cell with its text coloured `color`.
    pub fn fg(self, color: CellColor) -> (r: StyledCell)
        ensures
            r@ == (CellView { color: Some(color), ..self@ }),
    {
        StyledCell { color: Some(color), ..self }
    }

    /// The cell with one more attribute.
    pub fn add_attribute(self, attribute: CellAttribute) -> (r: StyledCell)
        ensures
            r@ == (CellView { attributes: self@.attributes.push(attribute), ..self@ }),
    {
        let mut attributes = self.attributes;
        attributes.push(attribute);
        StyledCell { content: self.content, color: self.color, attributes }
    }

    /// The text of the cell.
    pub fn content(&self) -> (r: String)
        ensures
            r@ == self@.content,
    {
        self.content.as_str().to_owned()
    }
}

impl VersionCheck {
    /// The table cell that shows this status.
    pub fn colored_cell(&self) -> (r: StyledCell)
        ensures
            r@ == status_cell(self@),
    {
        let r = match self {
            VersionCheck::LocalNewer => StyledCell::new("No Update").add_attribute(
                CellAttribute::Dim,
            ),
            VersionCheck::NewerAvailable(version) => {
                let text = concat("Update Available (", version.to_string().as_str());
                let mut text = text;
                push_char(&mut text, ')');
                proof {
                    reveal_strlit(")");
                    assert(")"@ =~= seq![')']);
                }
                StyledCell::new(text.as_str()).fg(CellColor::Green).add_attribute(
                    CellAttribute::Bold,
                )
            },
            VersionCheck::UnAvailable => StyledCell::new("Not Available").fg(CellColor::Red),
            VersionCheck::UpToDate => StyledCell::new("Up to date").fg(CellColor::Blue),
        };
        assert(r@.attributes =~= status_cell(self@).attributes);
        assert(r@.content =~= status_cell(self@).content);
        r
    }

    /// Where `self` stands against `other` in the order of statuses: `-1`, `0` or `1`. The
    /// order is total: swapping reverses it, it is `0` only for equal statuses, and it is
    /// transitive.
    pub fn order(&self, other: &VersionCheck) -> (r: i8)
        ensures
            r == check_order(self@, other@),
            check_order(other@, self@) == -r,
            r == 0 ==> self@ == other@,
            check_ok(self@),
            check_ok(other@),
            r < 0 ==> forall|c: CheckView|
                #![trigger check_order(other@, c)]
                #![trigger check_order(self@, c)]
                check_ok(c) && check_order(other@, c) <= 0 ==> check_order(self@, c) < 0,
            r < 0 ==> forall|c: CheckView|
                #![trigger check_order(c, self@)]
                #![trigger check_order(c, other@)]
                check_ok(c) && check_order(c, self@) <= 0 ==> check_order(c, other@) < 0,
            r > 0 ==> forall|c: CheckView|
                #![trigger check_order(self@, c)]
                #![trigger check_order(other@, c)]
                check_ok(c) && check_order(self@, c) <= 0 ==> check_order(other@, c) < 0,
            r > 0 ==> forall|c: CheckView|
                #![trigger check_order(c, other@)]
                #![trigger check_order(c, self@)]
                check_ok(c) && check_order(c, other@) <= 0 ==> check_order(c, self@) < 0,
    {
        let _ = self.clone();
        let _ = other.clone();
        match (self, other) {
            (VersionCheck::NewerAvailable(x), VersionCheck::NewerAvailable(y)) => {
                let r = x.order(y);
                proof {
                    lemma_newer_order(x@, y@, r as int);
                }
                r
            },
            _ => {
                let a = self.rank();
                let b = other.rank();
                if a < b {
                    -1
                } else if a > b {
                    1
                } else {
                    0
                }
            },
        }
    }

    fn rank(&self) -> (r: u8)
        ensures
            r == check_rank(self@),
    {
        match self {
            VersionCheck::NewerAvailable(_) => 0,
            VersionCheck::UpToDate => 1,
            VersionCheck::LocalNewer => 2,
            VersionCheck::UnAvailable => 3,
        }
    }

    /// Whether the status reports a newer version.
    pub fn has_update(&self) -> (r: bool)
        ensures
            r == has_update(self@),
    {
        matches!(self, VersionCheck::NewerAvailable(_))
    }
}

/// An installed package: its name, its version and how that stands against crates.io.
#[derive(Debug, PartialEq, Eq)]
pub struct PackageInfo {
    /// Name of the package
    pub name: String,
    /// Version of the package
    pub version: Version,
    /// Version check status
    pub info: VersionCheck,
}

/// The mathematical value of a [`PackageInfo`].
pub struct PackageView {
    pub name: Seq<char>,
    pub version: VersionView,
    pub info: CheckView,
}

impl View for PackageInfo {
    type V = PackageView;

    open spec fn view(&self) -> PackageView {
        PackageView { name: self.name@, version: self.version@, info: self.info@ }
    }
}

impl Clone for PackageInfo {
    fn clone(&self) -> (r: PackageInfo)
        ensures
            r@ == self@,
            package_ok(self@),
    {
        PackageInfo {
            name: self.name.clone(),
            version: self.version.clone(),
            info: self.info.clone(),
        }
    }
}

impl PackageInfo {
    /// A package that has not been looked up yet.
    pub fn new(name: String, version: Version) -> (r: PackageInfo)
        ensures
            r@ == (PackageView { name: name@, version: version@, info: CheckView::UnAvailable }),
    {
        PackageInfo { name, version, info: VersionCheck::default() }
    }

    /// Records how the installed version stands against the latest version `latest`.
    pub fn set_info(&mut self, latest: &Version)
        ensures
            final(self)@ == (PackageView {
                info: check_against(old(self)@.version, latest@),
                ..old(self)@
            }),
    {
        let o = self.version.order(latest);
        self.info = if o < 0 {
            VersionCheck::NewerAvailable(latest.clone())
        } else if o > 0 {
            VersionCheck::LocalNewer
        } else {
            VersionCheck::UpToDate
        };
    }
}

/// The version of a crate that an update installs: its latest stable release.
pub fn latest_installable_version(max_version: &str, max_stable_version: Option<&str>) -> (r: Result<Version, Error>)
    ensures
        match max_stable_version {
            None => r matches Err(Error::NoStableVersion(m)) && m@ == max_version@,
            Some(text) => match semver_parse(text@) {
                Ok(p) => r matches Ok(v) && v@ == parts_view(p),
                Err(m) => r matches Err(Error::InvalidStableVersion(cause)) && cause@ == m,
            },
        },
{
    match max_stable_version {
        None => Err(Error::NoStableVersion(max_version.to_owned())),
        Some(text) => match Version::parse(text) {
            Ok(v) => Ok(v),
            Err(m) => Err(Error::InvalidStableVersion(m)),
        },
    }
}

/// Two newer versions stand as the versions do; their transitivity carries over to statuses.
proof fn lemma_newer_order(x: VersionView, y: VersionView, r: int)
    requires
        r == version_order(x, y),
        is_version(x),
        is_version(y),
        r < 0 ==> forall|c: VersionView|
            #![trigger version_order(y, c)]
            #![trigger version_order(x, c)]
            is_version(c) && version_order(y, c) <= 0 ==> version_order(x, c) < 0,
        r < 0 ==> forall|c: VersionView|
            #![trigger version_order(c, x)]
            #![trigger version_order(c, y)]
            is_version(c) && version_order(c, x) <= 0 ==> version_order(c, y) < 0,
        r > 0 ==> forall|c: VersionView|
            #![trigger version_order(x, c)]
            #![trigger version_order(y, c)]
            is_version(c) && version_order(x, c) <= 0 ==> version_order(y, c) < 0,
        r > 0 ==> forall|c: VersionView|
            #![trigger version_order(c, y)]
            #![trigger version_order(c, x)]
            is_version(c) && version_order(c, y) <= 0 ==> version_order(c, x) < 0,
    ensures
        ({
            let a = CheckView::NewerAvailable(x);
            let b = CheckView::NewerAvailable(y);
            &&& r < 0 ==> forall|c: CheckView|
                #![trigger check_order(b, c)]
                #![trigger check_order(a, c)]
                check_ok(c) && check_order(b, c) <= 0 ==> check_order(a, c) < 0
            &&& r < 0 ==> forall|c: CheckView|
                #![trigger check_order(c, a)]
                #![trigger check_order(c, b)]
                check_ok(c) && check_order(c, a) <= 0 ==> check_order(c, b) < 0
            &&& r > 0 ==> forall|c: CheckView|
                #![trigger check_order(a, c)]
                #![trigger check_order(b, c)]
                check_ok(c) && check_order(a, c) <= 0 ==> check_order(b, c) < 0
            &&& r > 0 ==> forall|c: CheckView|
                #![trigger check_order(c, b)]
                #![trigger check_order(c, a)]
                check_ok(c) && check_order(c, b) <= 0 ==> check_order(c, a) < 0
        }),
{
    let a = CheckView::NewerAvailable(x);
    let b = CheckView::NewerAvailable(y);
    if r < 0 {
        assert forall|c: CheckView| check_ok(c) && check_order(b, c) <= 0 implies #[trigger] check_order(a, c) < 0 by {
            if let CheckView::NewerAvailable(z) = c {
                assert(version_order(y, z) <= 0);
            }
        }
        assert forall|c: CheckView| check_ok(c) && check_order(c, a) <= 0 implies #[trigger] check_order(c, b) < 0 by {
            if let CheckView::NewerAvailable(z) = c {
                assert(version_order(z, x) <= 0);
            }
        }
    }
    if r > 0 {
        assert forall|c: CheckView| check_ok(c) && check_order(a, c) <= 0 implies #[trigger] check_order(b, c) < 0 by {
            if let CheckView::NewerAvailable(z) = c {
                assert(version_order(x, z) <= 0);
            }
        }
        assert forall|c: CheckView| check_ok(c) && check_order(c, b) <= 0 implies #[trigger] check_order(c, a) < 0 by {
            if let CheckView::NewerAvailable(z) = c {
                assert(version_order(z, y) <= 0);
            }
        }
    }
}

} // verus!
