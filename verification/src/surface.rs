//! How a configured window is set up as a layer-shell surface: its title,
//! layer, anchored edges, exclusive zone, default size and classes.

use vstd::prelude::*;
use crate::text::str_concat;
use crate::widget::{classes_view, copy_strings, Anchor, Layer, WindowConfig};

verus! {

broadcast use vstd::string::group_string_axioms;

/// Which screen edges a surface is anchored to.
#[derive(Debug, Clone, Copy, PartialEq, Eq, Structural)]
pub struct EdgeSet {
    pub top: bool,
    pub bottom: bool,
    pub left: bool,
    pub right: bool,
}

/// The settings of a window's surface.
#[derive(Debug)]
pub struct WindowPlan {
    /// `sgs:<name>`.
    pub title: String,
    pub layer: Layer,
    pub edges: EdgeSet,
    /// The space the compositor reserves for the window, if any.
    pub exclusive_zone: Option<i32>,
    pub default_width: Option<i32>,
    pub default_height: Option<i32>,
    /// `sgs-window` then the configured classes.
    pub css_classes: Vec<String>,
}

/// The exclusive zone of a window: its height when it is anchored to the
/// top or bottom edge, else its width when anchored to the left or right,
/// else none.
pub open spec fn spec_exclusive_zone(anchor: Seq<Anchor>, height: Option<i32>, width: Option<i32>) -> Option<i32> {
    if anchor.contains(Anchor::Top) || anchor.contains(Anchor::Bottom) {
        height
    } else if anchor.contains(Anchor::Left) || anchor.contains(Anchor::Right) {
        width
    } else {
        None
    }
}

/// Whether `p` is the surface plan of `cfg`.
pub open spec fn spec_window_plan(cfg: WindowConfig, p: WindowPlan) -> bool {
    &&& p.title@ == "sgs:"@ + cfg.name@
    &&& p.layer == cfg.layer
    &&& p.edges.top == cfg.anchor@.contains(Anchor::Top)
    &&& p.edges.bottom == cfg.anchor@.contains(Anchor::Bottom)
    &&& p.edges.left == cfg.anchor@.contains(Anchor::Left)
    &&& p.edges.right == cfg.anchor@.contains(Anchor::Right)
    &&& p.exclusive_zone == spec_exclusive_zone(cfg.anchor@, cfg.height, cfg.width)
    &&& p.default_width == cfg.width
    &&& p.default_height == cfg.height
    &&& classes_view(p.css_classes@) == seq!["sgs-window"@] + classes_view(cfg.class@)
}

fn contains_anchor(v: &Vec<Anchor>, a: Anchor) -> (r: bool)
    ensures
        r == v@.contains(a),
{
    let mut i: usize = 0;
    while i < v.len()
        invariant
            i <= v@.len(),
            forall|j: int| 0 <= j < i ==> v@[j] != a,
        decreases v.len() - i,
    {
        if v[i] == a {
            return true;
        }
        i = i + 1;
    }
    false
}

/// The surface plan of a configured window.
pub fn plan_window(cfg: &WindowConfig) -> (r: WindowPlan)
    ensures
        spec_window_plan(*cfg, r),
        r.default_width == cfg.width,
        r.default_height == cfg.height,
        r.layer == cfg.layer,
        r.title@ == "sgs:"@ + cfg.name@,
{
    let top = contains_anchor(&cfg.anchor, Anchor::Top);
    let bottom = contains_anchor(&cfg.anchor, Anchor::Bottom);
    let left = contains_anchor(&cfg.anchor, Anchor::Left);
    let right = contains_anchor(&cfg.anchor, Anchor::Right);
    let exclusive_zone = if top || bottom {
        cfg.height
    } else if left || right {
        cfg.width
    } else {
        None
    };
    let mut css_classes: Vec<String> = Vec::new();
    css_classes.push("sgs-window".to_string());
    let rest = copy_strings(&cfg.class);
    let ghost head = css_classes@;
    let mut i: usize = 0;
    while i < rest.len()
        invariant
            i <= rest@.len(),
            rest@ == cfg.class@,
            css_classes@ == head + rest@.take(i as int),
        decreases rest.len() - i,
    {
        css_classes.push(rest[i].clone());
        assert(css_classes@ =~= head + rest@.take(i + 1));
        i = i + 1;
    }
    assert(rest@.take(rest@.len() as int) =~= rest@);
    assert(classes_view(css_classes@) =~= seq!["sgs-window"@] + classes_view(cfg.class@));
    WindowPlan {
        title: str_concat("sgs:", cfg.name.as_str()),
        layer: cfg.layer,
        edges: EdgeSet { top, bottom, left, right },
        exclusive_zone,
        default_width: cfg.width,
        default_height: cfg.height,
        css_classes,
    }
}

/// A window anchored along the top or bottom reserves its height, one
/// anchored only left or right reserves its width, and an unanchored one
/// reserves nothing.
pub proof fn law_exclusive_zone(anchor: Seq<Anchor>, height: Option<i32>, width: Option<i32>)
    ensures
        (anchor.contains(Anchor::Top) || anchor.contains(Anchor::Bottom)) ==> spec_exclusive_zone(
            anchor,
            height,
            width,
        ) == height,
        !(anchor.contains(Anchor::Top) || anchor.contains(Anchor::Bottom)) && (anchor.contains(
            Anchor::Left,
        ) || anchor.contains(Anchor::Right)) ==> spec_exclusive_zone(anchor, height, width)
            == width,
        anchor.len() == 0 ==> spec_exclusive_zone(anchor, height, width) is None,
{
}

/// A window's surface takes the configured size as it stands: its default
/// width is the configured width and its default height the configured
/// height. Its title is `sgs:` and the window's name, its layer the
/// configured one, it is anchored to exactly the listed edges, and its
/// classes are `sgs-window` then the configured ones. It reserves its height
/// when anchored to the top or bottom, else its width when anchored to the
/// left or right, else nothing.
pub proof fn law_window_plan(cfg: WindowConfig, p: WindowPlan)
    requires
        spec_window_plan(cfg, p),
    ensures
        p.default_width == cfg.width,
        p.default_height == cfg.height,
        p.title@ == "sgs:"@ + cfg.name@,
        p.layer == cfg.layer,
        p.edges.top <==> cfg.anchor@.contains(Anchor::Top),
        p.edges.bottom <==> cfg.anchor@.contains(Anchor::Bottom),
        p.edges.left <==> cfg.anchor@.contains(Anchor::Left),
        p.edges.right <==> cfg.anchor@.contains(Anchor::Right),
        classes_view(p.css_classes@).len() == cfg.class@.len() + 1,
        classes_view(p.css_classes@)[0] == "sgs-window"@,
        forall|i: int| 0 <= i < cfg.class@.len() ==> classes_view(p.css_classes@)[i + 1]
            == cfg.class@[i]@,
        cfg.anchor@.contains(Anchor::Top) ==> p.exclusive_zone == cfg.height,
        cfg.anchor@.contains(Anchor::Bottom) ==> p.exclusive_zone == cfg.height,
        !cfg.anchor@.contains(Anchor::Top) && !cfg.anchor@.contains(Anchor::Bottom)
            && cfg.anchor@.contains(Anchor::Left) ==> p.exclusive_zone == cfg.width,
        !cfg.anchor@.contains(Anchor::Top) && !cfg.anchor@.contains(Anchor::Bottom)
            && cfg.anchor@.contains(Anchor::Right) ==> p.exclusive_zone == cfg.width,
        cfg.anchor@.len() == 0 ==> p.exclusive_zone is None,
{
    let cv = classes_view(p.css_classes@);
    assert(cv == seq!["sgs-window"@] + classes_view(cfg.class@));
    assert forall|i: int| 0 <= i < cfg.class@.len() implies cv[i + 1] == cfg.class@[i]@ by {
        assert(cv[i + 1] == classes_view(cfg.class@)[i]);
    }
}

} // verus!
