//! Choice of the display: connector, mode, plane and the properties to set.

use crate::search;
use crate::search::Search;
use crate::text;
use crate::text::{eq_ignore_ascii_case, same_str};
use vstd::prelude::*;
use vstd::string::*;

verus! {

/// A mode this many times as long as it is wide is one of a Touch Bar.
pub const TOUCHBAR_ASPECT: u32 = 8;

/// The format code `AR24`.
pub const ARGB8888: u32 = 0x34325241;

/// The format code `XR24`.
pub const XRGB8888: u32 = 0x34325258;

/// A pixel format with a byte for each of blue, green, red and alpha, or
/// nothing in place of alpha.
#[derive(Clone, Copy, PartialEq, Eq, Structural, Debug)]
pub enum PixelFormat {
    Argb8888,
    Xrgb8888,
}

/// The format that a plane is used with: the one with alpha, where the plane
/// has it, else the one without.
pub open spec fn primary_format(formats: Seq<u32>) -> Option<PixelFormat> {
    if formats.contains(ARGB8888) {
        Some(PixelFormat::Argb8888)
    } else if formats.contains(XRGB8888) {
        Some(PixelFormat::Xrgb8888)
    } else {
        None
    }
}

fn has(list: &Vec<u32>, wanted: u32) -> (r: bool)
    ensures
        r == list@.contains(wanted),
{
    let mut i: usize = 0;
    while i < list.len()
        invariant
            i <= list@.len(),
            forall|j: int| 0 <= j < i ==> list@[j] != wanted,
        decreases list.len() - i,
    {
        if list[i] == wanted {
            assert(list@[i as int] == wanted);
            return true;
        }
        i += 1;
    }
    false
}

/// Picks the format to use a plane with from those that it has.
pub fn pick_primary_format(plane_formats: &Vec<u32>) -> (r: Option<PixelFormat>)
    ensures
        r == primary_format(plane_formats@),
{
    if has(plane_formats, ARGB8888) {
        return Some(PixelFormat::Argb8888);
    }
    if has(plane_formats, XRGB8888) {
        return Some(PixelFormat::Xrgb8888);
    }
    None
}

/// A mode of that size is one of a Touch Bar, upright or lying: it is not
/// empty, and one side is at least eight times as long as the other.
pub open spec fn touchbar_like(width: u16, height: u16) -> bool {
    &&& width > 0
    &&& height > 0
    &&& (width >= TOUCHBAR_ASPECT * height || height >= TOUCHBAR_ASPECT * width)
}

/// Tells whether a mode of that size is one of a Touch Bar.
pub fn looks_like_touchbar(width: u16, height: u16) -> (r: bool)
    ensures
        r == touchbar_like(width, height),
{
    if width == 0 || height == 0 {
        return false;
    }
    let w: u32 = width as u32;
    let h: u32 = height as u32;
    if w >= h {
        w >= h * TOUCHBAR_ASPECT
    } else {
        h >= w * TOUCHBAR_ASPECT
    }
}

/// It does not matter which way round a mode is.
pub proof fn orientation_is_free(width: u16, height: u16)
    ensures
        touchbar_like(width, height) == touchbar_like(height, width),
{
}

/// The size of a mode.
#[derive(Clone, Copy, PartialEq, Eq, Structural, Debug)]
pub struct ModeSize {
    pub width: u16,
    pub height: u16,
}

impl ModeSize {
    /// A mode of this size is one of a Touch Bar.
    pub open spec fn fits(self) -> bool {
        touchbar_like(self.width, self.height)
    }

    /// A thousand times the width over the height.
    pub open spec fn ratio(self) -> int {
        if self.height == 0 {
            self.width * 1000
        } else {
            (self.width * 1000) / (self.height as int)
        }
    }

    fn ratio_of(&self) -> (r: u32)
        ensures
            r == self.ratio(),
    {
        let h: u32 = if self.height == 0 {
            1
        } else {
            self.height as u32
        };
        let w: u32 = self.width as u32 * 1000;
        w / h
    }

    /// The size comes no later than `other` where modes are ordered by ratio,
    /// then by width.
    pub open spec fn up_to(self, other: ModeSize) -> bool {
        self.ratio() < other.ratio() || (self.ratio() == other.ratio() && self.width
            <= other.width)
    }
}

/// What a connector shows: whether a display is connected, and its modes.
pub struct ConnectorInfo {
    pub connected: bool,
    pub modes: Vec<ModeSize>,
}

/// The mode with index `m` is the one to use a connector with: among those of
/// a Touch Bar the last one with the greatest ratio.
pub open spec fn is_best_mode(modes: Seq<ModeSize>, m: int) -> bool {
    &&& 0 <= m < modes.len()
    &&& modes[m].fits()
    &&& forall|j: int|
        0 <= j < modes.len() && (#[trigger] modes[j]).fits() ==> if j <= m {
            modes[j].ratio() <= modes[m].ratio()
        } else {
            modes[j].ratio() < modes[m].ratio()
        }
}

/// The connector with index `c` can be used with its mode `m`.
pub open spec fn offers(connectors: Seq<ConnectorInfo>, c: int, m: int) -> bool {
    &&& 0 <= c < connectors.len()
    &&& connectors[c].connected
    &&& is_best_mode(connectors[c].modes@, m)
}

/// The connector and the mode to use: among what the connectors offer, the last
/// one with the greatest ratio, then width.
pub open spec fn is_choice(connectors: Seq<ConnectorInfo>, c: int, m: int) -> bool {
    &&& offers(connectors, c, m)
    &&& forall|c2: int, m2: int|
        #[trigger] offers(connectors, c2, m2) ==> if c2 <= c {
            connectors[c2].modes@[m2].up_to(connectors[c].modes@[m])
        } else {
            !connectors[c].modes@[m].up_to(connectors[c2].modes@[m2])
        }
}

/// The best mode of a Touch Bar among `modes`, where there is one.
pub fn best_mode(modes: &Vec<ModeSize>) -> (r: Option<usize>)
    ensures
        r matches Some(m) ==> is_best_mode(modes@, m as int),
        r is None ==> forall|j: int| 0 <= j < modes@.len() ==> !(#[trigger] modes@[j]).fits(),
{
    let mut best: Option<usize> = None;
    let mut i: usize = 0;
    while i < modes.len()
        invariant
            i <= modes@.len(),
            best matches Some(m) ==> is_best_mode(modes@.take(i as int), m as int),
            best is None ==> forall|j: int| 0 <= j < i ==> !(#[trigger] modes@[j]).fits(),
        decreases modes.len() - i,
    {
        let ghost before = modes@.take(i as int);
        let ghost after = modes@.take(i + 1);
        let ghost old_best = best;
        proof {
            assert(forall|j: int| 0 <= j < i ==> before[j] == #[trigger] after[j]);
            assert(forall|j: int| 0 <= j < i ==> #[trigger] modes@[j] == before[j]);
            assert(after[i as int] == modes@[i as int]);
        }
        if looks_like_touchbar(modes[i].width, modes[i].height) {
            let better = match best {
                None => true,
                Some(m) => modes[i].ratio_of() >= modes[m].ratio_of(),
            };
            if better {
                best = Some(i);
            }
        }
        proof {
            if let Some(m) = best {
                assert(after[m as int].fits());
                assert forall|j: int| 0 <= j < after.len() && (#[trigger] after[j]).fits() implies
                    if j <= m {
                        after[j].ratio() <= after[m as int].ratio()
                    } else {
                        after[j].ratio() < after[m as int].ratio()
                    } by {
                    if j < i {
                        assert(before[j].fits());
                        assert(modes@[j].fits());
                    }
                }
            }
        }
        i += 1;
    }
    proof {
        assert(modes@.take(i as int) =~= modes@);
    }
    best
}

/// A connector has one best mode only.
proof fn lemma_best_mode_unique(modes: Seq<ModeSize>, a: int, b: int)
    requires
        is_best_mode(modes, a),
        is_best_mode(modes, b),
    ensures
        a == b,
{
    assert(modes[a].fits() && modes[b].fits());
}

/// Where no mode is one of a Touch Bar, none is the best one.
proof fn lemma_no_best_mode(modes: Seq<ModeSize>, m: int)
    requires
        forall|j: int| 0 <= j < modes.len() ==> !(#[trigger] modes[j]).fits(),
    ensures
        !is_best_mode(modes, m),
{
}

/// Chooses the connector and the mode to use, where a connected one has a mode
/// of a Touch Bar.
pub fn choose_connector(connectors: &Vec<ConnectorInfo>) -> (r: Option<(usize, usize)>)
    ensures
        r matches Some(choice) ==> is_choice(connectors@, choice.0 as int, choice.1 as int),
        r is None <==> forall|c: int, j: int|
            0 <= c < connectors@.len() && connectors@[c].connected && 0 <= j
                < connectors@[c].modes@.len() ==> !(#[trigger] connectors@[c].modes@[j]).fits(),
{
    let mut best: Option<(usize, usize)> = None;
    let mut i: usize = 0;
    while i < connectors.len()
        invariant
            i <= connectors@.len(),
            best matches Some(b) ==> {
                &&& b.0 < i
                &&& offers(connectors@, b.0 as int, b.1 as int)
                &&& forall|c2: int, m2: int|
                    #[trigger] offers(connectors@, c2, m2) && c2 < i ==> if c2 <= b.0 {
                        connectors@[c2].modes@[m2].up_to(connectors@[b.0 as int].modes@[b.1 as int])
                    } else {
                        !connectors@[b.0 as int].modes@[b.1 as int].up_to(
                            connectors@[c2].modes@[m2],
                        )
                    }
            },
            best is None ==> forall|c: int, j: int|
                0 <= c < i && connectors@[c].connected && 0 <= j < connectors@[c].modes@.len()
                    ==> !(#[trigger] connectors@[c].modes@[j]).fits(),
            best is None ==> forall|c2: int, m2: int|
                c2 < i ==> !#[trigger] offers(connectors@, c2, m2),
        decreases connectors.len() - i,
    {
        let ghost prev = best;
        if connectors[i].connected {
            if let Some(m) = best_mode(&connectors[i].modes) {
                let here = connectors[i].modes[m];
                let better = match best {
                    None => true,
                    Some((bc, bm)) => {
                        let there = connectors[bc].modes[bm];
                        let a: u32 = there.ratio_of();
                        let b: u32 = here.ratio_of();
                        a < b || (a == b && there.width <= here.width)
                    },
                };
                if better {
                    best = Some((i, m));
                }
                proof {
                    assert(offers(connectors@, i as int, m as int));
                    assert forall|m2: int| #[trigger] offers(connectors@, i as int, m2) implies m2
                        == m by {
                        lemma_best_mode_unique(connectors@[i as int].modes@, m as int, m2);
                    }
                }
            } else {
                proof {
                    assert forall|m2: int| !#[trigger] offers(connectors@, i as int, m2) by {
                        lemma_no_best_mode(connectors@[i as int].modes@, m2);
                    }
                }
            }
        }
        i += 1;
    }
    proof {
        if let Some(b) = best {
            assert(connectors@[b.0 as int].modes@[b.1 as int].fits());
        }
    }
    best
}

/// The controller to drive the connector with: the first that one of its
/// encoders can be driven by, or the first of all where there is none.
pub open spec fn chosen_crtc(possible: Seq<u32>, all: Seq<u32>) -> Option<u32> {
    if possible.len() > 0 {
        Some(possible[0])
    } else if all.len() > 0 {
        Some(all[0])
    } else {
        None
    }
}

/// Chooses the controller to drive the connector with.
pub fn choose_crtc(possible: &Vec<u32>, all: &Vec<u32>) -> (r: Option<u32>)
    ensures
        r == chosen_crtc(possible@, all@),
{
    if possible.len() > 0 {
        Some(possible[0])
    } else if all.len() > 0 {
        Some(all[0])
    } else {
        None
    }
}

/// What a plane can be used with: controllers and formats.
pub struct PlaneInfo {
    pub crtcs: Vec<u32>,
    pub formats: Vec<u32>,
}

impl PlaneInfo {
    /// The plane can be used with that controller, in one of the two formats.
    pub open spec fn usable(self, crtc: u32) -> bool {
        self.crtcs@.contains(crtc) && primary_format(self.formats@) is Some
    }
}

/// Chooses the first plane that can be used with that controller, and the
/// format.
pub fn choose_plane(planes: &Vec<PlaneInfo>, crtc: u32) -> (r: Option<(usize, PixelFormat)>)
    ensures
        r matches Some(choice) ==> {
            &&& choice.0 < planes@.len()
            &&& planes@[choice.0 as int].usable(crtc)
            &&& primary_format(planes@[choice.0 as int].formats@) == Some(choice.1)
            &&& forall|j: int| 0 <= j < choice.0 ==> !(#[trigger] planes@[j]).usable(crtc)
        },
        r is None <==> forall|j: int|
            0 <= j < planes@.len() ==> !(#[trigger] planes@[j]).usable(crtc),
{
    let mut i: usize = 0;
    while i < planes.len()
        invariant
            i <= planes@.len(),
            forall|j: int| 0 <= j < i ==> !(#[trigger] planes@[j]).usable(crtc),
        decreases planes.len() - i,
    {
        if has(&planes[i].crtcs, crtc) {
            if let Some(format) = pick_primary_format(&planes[i].formats) {
                assert(planes@[i as int].usable(crtc));
                return Some((i, format));
            }
        }
        i += 1;
    }
    None
}

/// Searches a property by its name among the names that could be read;
/// `read_failed` tells whether reading broke off after them.
pub fn find_prop_id(names: &Vec<String>, read_failed: bool, name: &str) -> (r: Search)
    ensures
        search::search_result(
            text::texts(names@),
            |n: Seq<char>| text::same_ignoring_case(n, name@),
            read_failed,
            r,
        ),
{
    let mut i: usize = 0;
    while i < names.len()
        invariant
            i <= names@.len(),
            forall|j: int|
                0 <= j < i ==> !text::same_ignoring_case(
                    #[trigger] text::texts(names@)[j],
                    name@,
                ),
        decreases names.len() - i,
    {
        if eq_ignore_ascii_case(names[i].as_str(), name) {
            return Search::Found(i);
        }
        i += 1;
    }
    if read_failed {
        Search::ReadFailed
    } else {
        Search::Missing
    }
}

/// The value names of a property hold `wanted` at index `i`, whatever the case.
/// Names that are no text fit nothing.
pub open spec fn named(values: Seq<Option<String>>, i: int, wanted: Seq<char>) -> bool {
    &&& 0 <= i < values.len()
    &&& values[i] matches Some(name) && text::same_ignoring_case(name@, wanted)
}

/// The value with index `i` is the first one with the name `wanted[t]`, and no
/// value has a name that stands before it in `wanted`.
pub open spec fn is_preferred(
    values: Seq<Option<String>>,
    wanted: Seq<Seq<char>>,
    t: int,
    i: int,
) -> bool {
    &&& 0 <= t < wanted.len()
    &&& named(values, i, wanted[t])
    &&& forall|j: int| 0 <= j < i ==> !#[trigger] named(values, j, wanted[t])
    &&& forall|t2: int, j: int| 0 <= t2 < t ==> !#[trigger] named(values, j, wanted[t2])
}

/// The value with index `i` is the one to set.
pub open spec fn is_first_preferred(
    values: Seq<Option<String>>,
    wanted: Seq<Seq<char>>,
    i: int,
) -> bool {
    exists|t: int| #[trigger] is_preferred(values, wanted, t, i)
}

/// Finds the value of a property by names in the order of preference.
pub fn find_enum_value(values: &Vec<Option<String>>, wanted: &Vec<String>) -> (r: Option<usize>)
    ensures
        r matches Some(i) ==> is_first_preferred(values@, text::texts(wanted@), i as int),
        r is None ==> forall|t: int, j: int|
            0 <= t < wanted@.len() ==> !#[trigger] named(values@, j, text::texts(wanted@)[t]),
{
    let mut t: usize = 0;
    while t < wanted.len()
        invariant
            t <= wanted@.len(),
            forall|t2: int, j: int|
                0 <= t2 < t ==> !#[trigger] named(values@, j, text::texts(wanted@)[t2]),
        decreases wanted.len() - t,
    {
        let mut i: usize = 0;
        while i < values.len()
            invariant
                t < wanted@.len(),
                i <= values@.len(),
                forall|t2: int, j: int|
                    0 <= t2 < t ==> !#[trigger] named(values@, j, text::texts(wanted@)[t2]),
                forall|j: int|
                    0 <= j < i ==> !#[trigger] named(
                        values@,
                        j,
                        text::texts(wanted@)[t as int],
                    ),
            decreases values.len() - i,
        {
            if let Some(name) = &values[i] {
                if eq_ignore_ascii_case(name.as_str(), wanted[t].as_str()) {
                    assert(named(values@, i as int, text::texts(wanted@)[t as int]));
                    assert(is_preferred(values@, text::texts(wanted@), t as int, i as int));
                    return Some(i);
                }
            }
            i += 1;
        }
        t += 1;
    }
    None
}

/// Whose property it is.
#[derive(Clone, Copy, PartialEq, Eq, Structural, Debug)]
pub enum DrmObject {
    Connector,
    Crtc,
    Plane,
}

/// What to set a property to.
#[derive(Clone, Copy, PartialEq, Eq, Structural, Debug)]
pub enum PropertyValue {
    /// The chosen controller.
    Crtc,
    /// The chosen mode.
    Mode,
    /// The frame buffer.
    Framebuffer,
    Boolean(bool),
    Unsigned(u64),
    Signed(i64),
    /// The value with this index.
    Enum(usize),
}

/// A property to set.
pub struct PropertySetting {
    pub object: DrmObject,
    pub name: String,
    pub value: PropertyValue,
}

/// A property to set, by value.
pub struct SettingView {
    pub object: DrmObject,
    pub name: Seq<char>,
    pub value: PropertyValue,
}

impl View for PropertySetting {
    type V = SettingView;

    open spec fn view(&self) -> SettingView {
        SettingView { object: self.object, name: self.name@, value: self.value }
    }
}

/// The settings in `list`.
pub open spec fn settings(list: Seq<PropertySetting>) -> Seq<SettingView> {
    list.map_values(|s: PropertySetting| s@)
}

/// What to set for a mode of that size, in this order: the plane shows the
/// whole frame buffer on the whole display. Sizes in the frame buffer are in
/// units of 1/65536 pixel.
pub open spec fn mode_settings(width: u16, height: u16) -> Seq<SettingView> {
    seq![
        SettingView {
            object: DrmObject::Connector,
            name: "CRTC_ID"@,
            value: PropertyValue::Crtc,
        },
        SettingView { object: DrmObject::Crtc, name: "MODE_ID"@, value: PropertyValue::Mode },
        SettingView {
            object: DrmObject::Crtc,
            name: "ACTIVE"@,
            value: PropertyValue::Boolean(true),
        },
        SettingView {
            object: DrmObject::Plane,
            name: "FB_ID"@,
            value: PropertyValue::Framebuffer,
        },
        SettingView { object: DrmObject::Plane, name: "CRTC_ID"@, value: PropertyValue::Crtc },
        SettingView {
            object: DrmObject::Plane,
            name: "SRC_X"@,
            value: PropertyValue::Unsigned(0),
        },
        SettingView {
            object: DrmObject::Plane,
            name: "SRC_Y"@,
            value: PropertyValue::Unsigned(0),
        },
        SettingView {
            object: DrmObject::Plane,
            name: "SRC_W"@,
            value: PropertyValue::Unsigned((width * 0x1_0000) as u64),
        },
        SettingView {
            object: DrmObject::Plane,
            name: "SRC_H"@,
            value: PropertyValue::Unsigned((height * 0x1_0000) as u64),
        },
        SettingView {
            object: DrmObject::Plane,
            name: "CRTC_X"@,
            value: PropertyValue::Signed(0),
        },
        SettingView {
            object: DrmObject::Plane,
            name: "CRTC_Y"@,
            value: PropertyValue::Signed(0),
        },
        SettingView {
            object: DrmObject::Plane,
            name: "CRTC_W"@,
            value: PropertyValue::Unsigned(width as u64),
        },
        SettingView {
            object: DrmObject::Plane,
            name: "CRTC_H"@,
            value: PropertyValue::Unsigned(height as u64),
        },
    ]
}

fn set(object: DrmObject, name: &str, value: PropertyValue) -> (r: PropertySetting)
    ensures
        r@ == (SettingView { object, name: name@, value }),
{
    PropertySetting { object, name: name.to_owned(), value }
}

/// Lists what to set for a mode of that size.
pub fn plan_mode_settings(width: u16, height: u16) -> (r: Vec<PropertySetting>)
    ensures
        settings(r@) == mode_settings(width, height),
{
    let w: u64 = width as u64;
    let h: u64 = height as u64;
    let r = vec![
        set(DrmObject::Connector, "CRTC_ID", PropertyValue::Crtc),
        set(DrmObject::Crtc, "MODE_ID", PropertyValue::Mode),
        set(DrmObject::Crtc, "ACTIVE", PropertyValue::Boolean(true)),
        set(DrmObject::Plane, "FB_ID", PropertyValue::Framebuffer),
        set(DrmObject::Plane, "CRTC_ID", PropertyValue::Crtc),
        set(DrmObject::Plane, "SRC_X", PropertyValue::Unsigned(0)),
        set(DrmObject::Plane, "SRC_Y", PropertyValue::Unsigned(0)),
        set(DrmObject::Plane, "SRC_W", PropertyValue::Unsigned(w * 0x1_0000)),
        set(DrmObject::Plane, "SRC_H", PropertyValue::Unsigned(h * 0x1_0000)),
        set(DrmObject::Plane, "CRTC_X", PropertyValue::Signed(0)),
        set(DrmObject::Plane, "CRTC_Y", PropertyValue::Signed(0)),
        set(DrmObject::Plane, "CRTC_W", PropertyValue::Unsigned(w)),
        set(DrmObject::Plane, "CRTC_H", PropertyValue::Unsigned(h)),
    ];
    assert(settings(r@) =~= mode_settings(width, height));
    r
}

/// What values a property takes.
pub enum PropertyKind {
    /// The whole numbers up to this one.
    UnsignedRange(u64),
    /// One of a few, by name; names that are no text are missing.
    Enum(Vec<Option<String>>),
    Other,
}

/// The maximum of a property that is a range.
pub open spec fn max_value(kind: PropertyKind) -> Option<PropertyValue> {
    match kind {
        PropertyKind::UnsignedRange(max) => Some(PropertyValue::Unsigned(max)),
        _ => None,
    }
}

/// Sets a property that is a range, such as `alpha` and `zpos`, to its
/// maximum. Others are left alone.
pub fn max_setting(kind: &PropertyKind) -> (r: Option<PropertyValue>)
    ensures
        r == max_value(*kind),
{
    match kind {
        PropertyKind::UnsignedRange(max) => Some(PropertyValue::Unsigned(*max)),
        _ => None,
    }
}

/// The blend modes to set, in the order of preference.
pub open spec fn blend_modes() -> Seq<Seq<char>> {
    seq!["Pre-multiplied"@, "Premultiplied"@, "Coverage"@, "None"@]
}

/// `r` is the first of the preferred blend modes that the property has, or
/// nothing where it has none of them.
pub open spec fn is_blend_setting(kind: PropertyKind, r: Option<PropertyValue>) -> bool {
    match r {
        Some(value) => {
            &&& kind is Enum
            &&& value is Enum
            &&& is_first_preferred(kind->Enum_0@, blend_modes(), value->Enum_0 as int)
        },
        None => kind is Enum ==> forall|t: int, j: int|
            0 <= t < 4 ==> !#[trigger] named(kind->Enum_0@, j, blend_modes()[t]),
    }
}

/// Sets the blend mode to the first of the preferred ones that the plane has.
pub fn blend_setting(kind: &PropertyKind) -> (r: Option<PropertyValue>)
    ensures
        is_blend_setting(*kind, r),
{
    match kind {
        PropertyKind::Enum(values) => {
            let wanted = vec![
                "Pre-multiplied".to_owned(),
                "Premultiplied".to_owned(),
                "Coverage".to_owned(),
                "None".to_owned(),
            ];
            assert(text::texts(wanted@) =~= blend_modes());
            match find_enum_value(values, &wanted) {
                Some(i) => Some(PropertyValue::Enum(i)),
                None => None,
            }
        },
        _ => None,
    }
}

/// The properties of the plane that are set where it has them, in this order.
pub open spec fn optional_names() -> Seq<Seq<char>> {
    seq!["alpha"@, "zpos"@, "pixel blend mode"@]
}

/// Lists the properties of the plane that are set where it has them.
pub fn optional_property_names() -> (r: Vec<String>)
    ensures
        text::texts(r@) == optional_names(),
{
    let r = vec!["alpha".to_owned(), "zpos".to_owned(), "pixel blend mode".to_owned()];
    assert(text::texts(r@) =~= optional_names());
    r
}

/// `r` is what to set an optional property of the plane to: `alpha` and `zpos`
/// go to their maximum, the blend mode to the first of the preferred ones. Any
/// other property is left alone, and so is one of another kind.
pub open spec fn is_optional_setting(
    name: Seq<char>,
    kind: PropertyKind,
    r: Option<PropertyValue>,
) -> bool {
    if name == "alpha"@ || name == "zpos"@ {
        r == max_value(kind)
    } else if name == "pixel blend mode"@ {
        is_blend_setting(kind, r)
    } else {
        r is None
    }
}

/// Tells what to set an optional property of the plane to, where it is set.
pub fn optional_setting(name: &str, kind: &PropertyKind) -> (r: Option<PropertyValue>)
    ensures
        is_optional_setting(name@, *kind, r),
{
    if same_str(name, "alpha") || same_str(name, "zpos") {
        max_setting(kind)
    } else if same_str(name, "pixel blend mode") {
        blend_setting(kind)
    } else {
        None
    }
}

} // verus!
