//! Displays, cursors, frames and captures, in plain numbers.

use vstd::prelude::*;

use crate::capture;
use crate::config::{NamedOutput, OutputConfig, OutputMode, OutputTransform};
use crate::config;
use crate::cursor::{EntryModel, ImageModel};
use crate::cursor;
use crate::geometry::{Location, Rect, Size};
use crate::outputs::{Connector, ConnectorEntry, DisplayMode, DrmCard};
use crate::outputs;
use crate::pacing::PacerModel;
use crate::requests;
use crate::seqs;
use crate::session::Backend;
use crate::session;
use crate::stats::TimerModel;
use crate::text;

verus! {

/// A mode has the wanted size, and a refresh rate within a hertz of the wanted
/// one, in thousandths of a hertz.
pub open spec fn fits_wish(mode: DisplayMode, wanted: OutputMode) -> bool {
    &&& mode.width == wanted.width
    &&& mode.height == wanted.height
    &&& mode.refresh <= wanted.refresh_millihz + 1000
    &&& wanted.refresh_millihz <= mode.refresh + 1000
}

proof fn lemma_serving(modes: Seq<DisplayMode>, wanted: OutputMode, from: int, k: int)
    requires
        0 <= from <= k < modes.len(),
        fits_wish(modes[k], wanted),
        forall|j: int| from <= j < k ==> !fits_wish(#[trigger] modes[j], wanted),
    ensures
        outputs::serving_mode(modes, wanted, from) == Some(k),
    decreases k - from,
{
    if from < k {
        assert(!fits_wish(modes[from], wanted));
        lemma_serving(modes, wanted, from + 1, k);
    }
}

proof fn lemma_not_serving(modes: Seq<DisplayMode>, wanted: OutputMode, from: int)
    requires
        0 <= from,
        forall|j: int| 0 <= j < modes.len() ==> !fits_wish(#[trigger] modes[j], wanted),
    ensures
        outputs::serving_mode(modes, wanted, from) is None,
    decreases modes.len() - from,
{
    if from < modes.len() {
        assert(!fits_wish(modes[from], wanted));
        lemma_not_serving(modes, wanted, from + 1);
    }
}

proof fn lemma_preferred(modes: Seq<DisplayMode>, from: int, k: int)
    requires
        0 <= from <= k < modes.len(),
        modes[k].preferred,
        forall|j: int| from <= j < k ==> !(#[trigger] modes[j]).preferred,
    ensures
        outputs::preferred_mode(modes, from) == Some(k),
    decreases k - from,
{
    if from < k {
        lemma_preferred(modes, from + 1, k);
    }
}

proof fn lemma_not_preferred(modes: Seq<DisplayMode>, from: int)
    requires
        0 <= from,
        forall|j: int| 0 <= j < modes.len() ==> !(#[trigger] modes[j]).preferred,
    ensures
        outputs::preferred_mode(modes, from) is None,
    decreases modes.len() - from,
{
    if from < modes.len() {
        lemma_not_preferred(modes, from + 1);
    }
}

/// The first mode that fits the wish is chosen; without one, the first that
/// the display prefers; without one of those, its first mode.
pub proof fn the_wanted_mode_is_chosen(
    modes: Seq<DisplayMode>,
    wanted: Option<OutputMode>,
    k: int,
    p: int,
)
    requires
        0 <= k < modes.len(),
        0 <= p < modes.len(),
    ensures
        wanted is Some && fits_wish(modes[k], wanted->0) && (forall|j: int|
            0 <= j < k ==> !fits_wish(#[trigger] modes[j], wanted->0)) ==> outputs::chosen_mode(
            modes,
            wanted,
        ) == Some(k),
        (wanted is Some ==> forall|j: int|
            0 <= j < modes.len() ==> !fits_wish(#[trigger] modes[j], wanted->0))
            && modes[p].preferred && (forall|j: int|
            0 <= j < p ==> !(#[trigger] modes[j]).preferred) ==> outputs::chosen_mode(modes, wanted)
            == Some(p),
        (wanted is Some ==> forall|j: int|
            0 <= j < modes.len() ==> !fits_wish(#[trigger] modes[j], wanted->0)) && (forall|j: int|
            0 <= j < modes.len() ==> !(#[trigger] modes[j]).preferred) ==> outputs::chosen_mode(
            modes,
            wanted,
        ) == Some(0int),
{
    if wanted is Some && fits_wish(modes[k], wanted->0) && (forall|j: int|
        0 <= j < k ==> !fits_wish(#[trigger] modes[j], wanted->0)) {
        lemma_serving(modes, wanted->0, 0, k);
    }
    if wanted is Some ==> forall|j: int|
        0 <= j < modes.len() ==> !fits_wish(#[trigger] modes[j], wanted->0) {
        if wanted is Some {
            lemma_not_serving(modes, wanted->0, 0);
        }
        if modes[p].preferred && (forall|j: int|
            0 <= j < p ==> !(#[trigger] modes[j]).preferred) {
            lemma_preferred(modes, 0, p);
        }
        if forall|j: int| 0 <= j < modes.len() ==> !(#[trigger] modes[j]).preferred {
            lemma_not_preferred(modes, 0);
        }
    }
}

/// A controller is one that the device has and that an encoder of the display
/// can use; one is found wherever there is such a pair.
pub proof fn controllers_can_drive_their_display(crtcs: Seq<u32>, able: Seq<u32>)
    ensures
        match outputs::crtc_of(crtcs, able) {
            Some(crtc) => crtcs.contains(crtc) && able.contains(crtc),
            None => forall|c: u32| #[trigger] crtcs.contains(c) ==> !able.contains(c),
        },
    decreases crtcs.len(),
{
    if crtcs.len() > 0 {
        assert(crtcs.contains(crtcs[0]));
        if !able.contains(crtcs[0]) {
            let rest = crtcs.drop_first();
            controllers_can_drive_their_display(rest, able);
            match outputs::crtc_of(rest, able) {
                Some(crtc) => {
                    let i = choose|i: int| 0 <= i < rest.len() && rest[i] == crtc;
                    assert(crtcs[i + 1] == crtc);
                },
                None => {
                    assert forall|c: u32| #[trigger] crtcs.contains(c) implies !able.contains(
                        c,
                    ) by {
                        let i = choose|i: int| 0 <= i < crtcs.len() && crtcs[i] == c;
                        if i > 0 {
                            assert(rest[i - 1] == c);
                            assert(rest.contains(c));
                        }
                    }
                },
            }
        }
    }
}

/// An output is placed where its setting says: the first number is how far it
/// is from the left, the second how far from the top. Without a setting it is
/// at the origin, upright, at its own scale.
pub proof fn outputs_are_set_up_as_configured(setting: Option<OutputConfig>)
    ensures
        ({
            let setup = outputs::setup_of(setting);
            &&& setting is None ==> setup.position.x == 0 && setup.position.y == 0
                && setup.transform == OutputTransform::Normal && setup.scale is None
                && setup.vrr is None
            &&& setting matches Some(s) ==> {
                &&& s.position matches Some(at) ==> setup.position.x == at@[0] && setup.position.y
                    == at@[1]
                &&& s.position is None ==> setup.position.x == 0 && setup.position.y == 0
                &&& setup.scale == s.scale
                &&& setup.vrr == s.vrr
                &&& s.transform is None ==> setup.transform == OutputTransform::Normal
                &&& s.transform is Some && config::transform_meaning(s.transform->0@) is Ok
                    ==> Ok::<OutputTransform, Seq<char>>(setup.transform)
                    == config::transform_meaning(s.transform->0@)
            }
        }),
{
}

/// The names of the transforms.
pub proof fn transforms_are_known_by_their_names()
    ensures
        config::transform_meaning("normal"@) == Ok::<OutputTransform, Seq<char>>(
            OutputTransform::Normal,
        ),
        config::transform_meaning("90"@) == Ok::<OutputTransform, Seq<char>>(
            OutputTransform::Rotate90,
        ),
        config::transform_meaning("180"@) == Ok::<OutputTransform, Seq<char>>(
            OutputTransform::Rotate180,
        ),
        config::transform_meaning("270"@) == Ok::<OutputTransform, Seq<char>>(
            OutputTransform::Rotate270,
        ),
        config::transform_meaning("flipped"@) == Ok::<OutputTransform, Seq<char>>(
            OutputTransform::Flipped,
        ),
        config::transform_meaning("flipped-90"@) == Ok::<OutputTransform, Seq<char>>(
            OutputTransform::Flipped90,
        ),
        config::transform_meaning("flipped-180"@) == Ok::<OutputTransform, Seq<char>>(
            OutputTransform::Flipped180,
        ),
        config::transform_meaning("flipped-270"@) == Ok::<OutputTransform, Seq<char>>(
            OutputTransform::Flipped270,
        ),
{
    reveal_strlit("normal");
    reveal_strlit("90");
    reveal_strlit("180");
    reveal_strlit("270");
    reveal_strlit("flipped");
    reveal_strlit("flipped-90");
    reveal_strlit("flipped-180");
    reveal_strlit("flipped-270");
    assert("normal"@.len() == 6 && "90"@.len() == 2 && "180"@.len() == 3 && "270"@.len() == 3);
    assert("flipped"@.len() == 7 && "flipped-90"@.len() == 10 && "flipped-180"@.len() == 11);
    assert("flipped-270"@.len() == 11 && "180"@[0] == '1' && "270"@[0] == '2');
    assert("flipped-180"@[8] == '1' && "flipped-270"@[8] == '2');
}

/// Of two graphics cards the one with more connected displays is better, and
/// of two with as many the one whose path comes first.
pub proof fn cards_with_more_displays_are_better(a: DrmCard, b: DrmCard)
    ensures
        a.connected_outputs@.len() > b.connected_outputs@.len() ==> outputs::better(a, b)
            && !outputs::better(b, a),
        a.connected_outputs@.len() == b.connected_outputs@.len() ==> (outputs::better(a, b)
            <==> crate::layers::comes_before(a.path@, b.path@)),
{
}

/// The name of the backend decides; otherwise a session within another display
/// is nested in it.
pub proof fn backends_are_chosen_by_name(setting: Seq<char>, in_display: bool)
    ensures
        session::backend_for("drm"@, in_display) == Backend::Drm,
        session::backend_for("kms"@, in_display) == Backend::Drm,
        session::backend_for("winit"@, in_display) == Backend::Nested,
        session::backend_for("nested"@, in_display) == Backend::Nested,
        session::backend_for("auto"@, true) == Backend::Nested,
        session::backend_for("auto"@, false) == Backend::Drm,
{
    reveal_strlit("drm");
    reveal_strlit("kms");
    reveal_strlit("winit");
    reveal_strlit("nested");
    reveal_strlit("auto");
    assert("drm"@[0] == 'd' && "kms"@[0] == 'k' && "winit"@[0] == 'w' && "nested"@[0] == 'n'
        && "auto"@[0] == 'a');
}

/// A frame is due exactly if one was asked for, the display has refreshed
/// since the last one, and no frame is on its way, unless it has been for ten
/// refreshes.
pub proof fn frames_are_due_when_asked_for(p: PacerModel, now: int, requested: bool)
    requires
        now >= p.last,
    ensures
        p.due(now, requested) <==> {
            &&& p.redraw || requested
            &&& now - p.last >= p.interval
            &&& !p.pending || now - p.last >= 10 * p.interval
        },
        p.due(now, requested) ==> p.polled(now, requested).last == now && !p.polled(
            now,
            requested,
        ).redraw && !p.polled(now, requested).pending,
        !p.due(now, requested) ==> p.polled(now, requested).last == p.last && (p.polled(
            now,
            requested,
        ).redraw <==> p.redraw || requested),
{
}

/// The images of a cursor are those of the size nearest to the wanted one; the
/// point that it points with is scaled down with the buffer.
pub proof fn cursors_point_with_their_hotspot(image: ImageModel, scale: int)
    requires
        scale >= 1,
        image.xhot <= 0x7fff,
        image.yhot <= 0x7fff,
    ensures
        ({
            let f = image.frame(scale);
            &&& f.width == image.width && f.height == image.height && f.pixels == image.pixels
            &&& f.hotspot.x * scale <= image.xhot < (f.hotspot.x + 1) * scale
            &&& f.hotspot.y * scale <= image.yhot < (f.hotspot.y + 1) * scale
            &&& f.delay == image.delay
        }),
{
    let x = image.xhot as int;
    let y = image.yhot as int;
    assert((x / scale) * scale <= x < (x / scale + 1) * scale && 0 <= x / scale <= x)
        by (nonlinear_arith)
        requires
            scale >= 1,
            x >= 0,
    ;
    assert((y / scale) * scale <= y < (y / scale + 1) * scale && 0 <= y / scale <= y)
        by (nonlinear_arith)
        requires
            scale >= 1,
            y >= 0,
    ;
}

/// All images of the chosen size become frames, in their order, and no others.
pub proof fn frames_are_the_images_of_one_size(found: Seq<ImageModel>, size: u32, scale: int, i: int)
    requires
        0 <= i < cursor::frames_of_size(found, size, scale).len(),
    ensures
        exists|k: int|
            0 <= k < found.len() && (#[trigger] found[k]).size == size && cursor::frames_of_size(
                found,
                size,
                scale,
            )[i] == found[k].frame(scale),
{
    let kept = found.filter(cursor::of_size(size));
    assert(kept.contains(kept[i]));
    seqs::lemma_filter_contains(found, cursor::of_size(size), kept[i]);
    let k = choose|k: int| 0 <= k < found.len() && found[k] == kept[i];
    assert(found[k].size == size);
}

/// The configured theme and size come first, then those of the environment;
/// a blank name or a size that is not between 8 and 256 counts as none, and
/// then it is the default.
pub proof fn configured_cursors_come_first(
    name: Seq<char>,
    other: Option<Seq<char>>,
    size: u32,
    number: Option<Seq<char>>,
)
    ensures
        !text::blank(name) ==> cursor::theme_choice(Some(name), other) == name,
        !text::blank(name) ==> cursor::theme_choice(None, Some(name)) == name,
        text::blank(name) ==> cursor::theme_choice(Some(name), None) == "default"@,
        cursor::theme_choice(None, None) == "default"@,
        8 <= size <= 256 ==> cursor::size_choice(Some(size), number) == size,
        !(8 <= size <= 256) ==> cursor::size_choice(Some(size), number) == 24,
        8 <= size <= 256 ==> cursor::size_choice(None, Some(text::decimal(size as nat))) == size,
        cursor::size_choice(None, None) == 24,
{
    text::decimal_reads_back(size as nat, u32::MAX as nat);
}

/// A cached cursor is found by its icon and scale.
pub proof fn cached_cursors_are_found(cached: Seq<EntryModel>, icon: Seq<char>, scale: int)
    ensures
        match cursor::lookup(cached, icon, scale) {
            Some(found) => exists|k: int|
                0 <= k < cached.len() && (#[trigger] cached[k]).icon == icon && cached[k].scale
                    == scale && cached[k].cursor == found,
            None => forall|k: int|
                0 <= k < cached.len() ==> (#[trigger] cached[k]).icon != icon || cached[k].scale
                    != scale,
        },
    decreases cached.len(),
{
    if cached.len() > 0 {
        if cached[0].icon == icon && cached[0].scale == scale {
            assert(cached[0].cursor == cursor::lookup(cached, icon, scale)->0);
        } else {
            let rest = cached.drop_first();
            cached_cursors_are_found(rest, icon, scale);
            match cursor::lookup(rest, icon, scale) {
                Some(found) => {
                    let k = choose|k: int|
                        0 <= k < rest.len() && (#[trigger] rest[k]).icon == icon && rest[k].scale
                            == scale && rest[k].cursor == found;
                    assert(cached[k + 1] == rest[k]);
                },
                None => {
                    assert forall|k: int| 0 <= k < cached.len() implies (
                    #[trigger] cached[k]).icon != icon || cached[k].scale != scale by {
                        if k > 0 {
                            assert(rest[k - 1] == cached[k]);
                        }
                    }
                },
            }
        }
    }
}

/// A capture is the whole output, or the part of the requested rectangle that
/// is on it.
pub proof fn captures_are_what_was_asked_for(full: Size, requested: Rect)
    requires
        full.w > 0,
        full.h > 0,
        requested.width > 0,
        requested.height > 0,
    ensures
        capture::captured_part(full, None) == Some(
            Rect { x: 0, y: 0, width: full.w, height: full.h },
        ),
        0 <= requested.x && 0 <= requested.y && requested.x + requested.width <= full.w
            && requested.y + requested.height <= full.h ==> capture::captured_part(
            full,
            Some(requested),
        ) == Some(requested),
        requested.x >= full.w || requested.y >= full.h || requested.x + requested.width <= 0
            || requested.y + requested.height <= 0 ==> capture::captured_part(
            full,
            Some(requested),
        ) is None,
{
}

/// A popup may cover its output: relative to its parent, the room begins where
/// the output does and is as large as the output.
pub proof fn popups_may_cover_the_output(output: Rect, root: Location, offset: Location)
    ensures
        ({
            let room = requests::popup_room(output, root, offset);
            &&& root.x + offset.x + room.x == output.x
            &&& root.y + offset.y + room.y == output.y
            &&& room.width == output.width && room.height == output.height
        }),
{
}

/// A serial is no older than itself or one up to a billion before it, and
/// older than one up to a billion after it.
pub proof fn serials_age(serial: u32, step: u32)
    requires
        0 < step <= 1_000_000_000,
    ensures
        requests::no_older(serial, serial),
        serial + step <= u32::MAX ==> requests::no_older((serial + step) as u32, serial),
        serial + step <= u32::MAX ==> !requests::no_older(serial, (serial + step) as u32),
{
}

/// A grab of a popup conflicts with one that is held and is not its own.
pub proof fn grabs_conflict_with_those_of_others(state: requests::GrabState)
    ensures
        requests::conflicts(Some(state)) <==> state.grabbed && !state.ours,
        !requests::conflicts(None),
{
}

/// No image is nearer to the wanted size than those that are shown.
pub proof fn no_cursor_is_nearer_in_size(found: Seq<ImageModel>, nominal: int, i: int)
    requires
        0 <= i < found.len(),
    ensures
        cursor::closest(found, nominal) matches Some(best) && (best - nominal <= found[i].size
            - nominal || best - nominal <= nominal - found[i].size) && (nominal - best
            <= found[i].size - nominal || nominal - best <= nominal - found[i].size),
{
    cursor::the_nearest_size_is_chosen(found, nominal);
    assert(cursor::distance(cursor::closest(found, nominal)->0, nominal) <= cursor::distance(
        found[i].size,
        nominal,
    ));
}

/// The first file that holds a cursor gives it; without one it is an arrow that
/// points with its top left corner.
pub proof fn the_first_cursor_is_taken(files: Seq<Seq<u8>>, nominal: int, scale: int, k: int)
    requires
        0 <= k <= files.len(),
        forall|j: int|
            0 <= j < k ==> cursor::cursor_in(#[trigger] files[j], nominal, scale) is None,
        k < files.len() ==> cursor::cursor_in(files[k], nominal, scale) is Some,
    ensures
        k < files.len() ==> cursor::cursor_in(files[k], nominal, scale) == Some(
            cursor::cursor_among(files, nominal, scale),
        ),
        k == files.len() ==> {
            let shown = cursor::cursor_among(files, nominal, scale);
            &&& shown.frames.len() == 1
            &&& shown.duration == 0
            &&& shown.frames[0].hotspot.x == 0 && shown.frames[0].hotspot.y == 0
        },
    decreases k,
{
    if k > 0 {
        let rest = files.drop_first();
        assert forall|j: int| 0 <= j < k - 1 implies cursor::cursor_in(
            #[trigger] rest[j],
            nominal,
            scale,
        ) is None by {
            assert(rest[j] == files[j + 1]);
        }
        assert(cursor::cursor_in(files[0], nominal, scale) is None);
        the_first_cursor_is_taken(rest, nominal, scale, k - 1);
    }
}

/// An output that is taken over is a connected one with a mode and a controller
/// of its own; one that is switched off is taken only if there is no other.
pub proof fn connected_outputs_are_taken(
    connectors: Seq<Connector>,
    crtcs: Seq<u32>,
    settings: Seq<NamedOutput>,
)
    requires
        connectors.len() <= usize::MAX,
        forall|i: int| 0 <= i < connectors.len() ==> (#[trigger] connectors[i]).modes@.len()
            <= usize::MAX,
    ensures
        outputs::found_output(connectors, crtcs, settings) matches Some(found) ==> {
            let taken = connectors[found.connector as int];
            let setting = outputs::setting(settings, taken.name@);
            &&& found.connector < connectors.len()
            &&& taken.connected
            &&& outputs::chosen_mode(taken.modes@, outputs::wanted_mode(setting)) == Some(
                found.mode as int,
            )
            &&& crtcs.contains(found.crtc)
            &&& !found.forced ==> !(setting is Some && setting->0.enabled == Some(false))
            &&& found.forced ==> setting is Some && setting->0.enabled == Some(false)
        },
{
    lemma_search(connectors, crtcs, settings, false, 0);
    lemma_search(connectors, crtcs, settings, true, 0);
    let first = outputs::search(connectors, crtcs, settings, false, 0);
    let second = outputs::search(connectors, crtcs, settings, true, 0);
    match first.1 {
        outputs::Verdict::Take { mode, crtc } => {
            lemma_crtc(crtcs, connectors[first.0].encoders@, 0);
            lemma_mode_in_range(
                connectors[first.0].modes@,
                outputs::wanted_mode(outputs::setting(settings, connectors[first.0].name@)),
            );
        },
        outputs::Verdict::Skip => {
            lemma_forced(connectors, crtcs, settings, 0);
            match second.1 {
                outputs::Verdict::Take { mode, crtc } => {
                    lemma_crtc(crtcs, connectors[second.0].encoders@, 0);
                    lemma_mode_in_range(
                        connectors[second.0].modes@,
                        outputs::wanted_mode(
                            outputs::setting(settings, connectors[second.0].name@),
                        ),
                    );
                },
                _ => {},
            }
        },
        _ => {},
    }
}

proof fn lemma_mode_in_range(modes: Seq<DisplayMode>, wanted: Option<OutputMode>)
    ensures
        outputs::chosen_mode(modes, wanted) matches Some(k) ==> 0 <= k < modes.len(),
{
    if wanted is Some {
        lemma_serving_in_range(modes, wanted->0, 0);
    }
    lemma_preferred_in_range(modes, 0);
}

proof fn lemma_serving_in_range(modes: Seq<DisplayMode>, wanted: OutputMode, from: int)
    requires
        0 <= from,
    ensures
        outputs::serving_mode(modes, wanted, from) matches Some(k) ==> from <= k < modes.len(),
    decreases modes.len() - from,
{
    if from < modes.len() {
        lemma_serving_in_range(modes, wanted, from + 1);
    }
}

proof fn lemma_preferred_in_range(modes: Seq<DisplayMode>, from: int)
    requires
        0 <= from,
    ensures
        outputs::preferred_mode(modes, from) matches Some(k) ==> from <= k < modes.len(),
    decreases modes.len() - from,
{
    if from < modes.len() {
        lemma_preferred_in_range(modes, from + 1);
    }
}

proof fn lemma_search(
    connectors: Seq<Connector>,
    crtcs: Seq<u32>,
    settings: Seq<NamedOutput>,
    allow: bool,
    from: int,
)
    requires
        0 <= from <= connectors.len(),
    ensures
        ({
            let found = outputs::search(connectors, crtcs, settings, allow, from);
            &&& from <= found.0 <= connectors.len()
            &&& !(found.1 is Skip) ==> found.0 < connectors.len() && outputs::verdict(
                connectors[found.0],
                crtcs,
                settings,
                allow,
            ) == found.1
        }),
    decreases connectors.len() - from,
{
    if from < connectors.len() {
        lemma_search(connectors, crtcs, settings, allow, from + 1);
    }
}

proof fn lemma_forced(
    connectors: Seq<Connector>,
    crtcs: Seq<u32>,
    settings: Seq<NamedOutput>,
    from: int,
)
    requires
        0 <= from <= connectors.len(),
        outputs::search(connectors, crtcs, settings, false, from).1 is Skip,
    ensures
        ({
            let found = outputs::search(connectors, crtcs, settings, true, from);
            found.1 is Take ==> {
                let setting = outputs::setting(settings, connectors[found.0].name@);
                setting is Some && setting->0.enabled == Some(false)
            }
        }),
    decreases connectors.len() - from,
{
    if from < connectors.len() {
        if outputs::verdict(connectors[from], crtcs, settings, false) is Skip {
            lemma_forced(connectors, crtcs, settings, from + 1);
        }
    }
}

proof fn lemma_crtc(crtcs: Seq<u32>, encoders: Seq<Vec<u32>>, from: int)
    requires
        0 <= from,
    ensures
        outputs::crtc_for(crtcs, encoders, from) matches Some(crtc) ==> crtcs.contains(crtc)
            && exists|k: int|
            from <= k < encoders.len() && (#[trigger] encoders[k])@.contains(crtc),
    decreases encoders.len() - from,
{
    if from < encoders.len() {
        controllers_can_drive_their_display(crtcs, encoders[from]@);
        lemma_crtc(crtcs, encoders, from + 1);
        assert(encoders[from]@.len() >= 0);
    }
}

/// What is asked of an output in vain: another mode than it has, to be switched
/// off, a variable rate, or to be turned.
pub proof fn vain_wishes_are_reported(setting: OutputConfig, mode: OutputMode)
    ensures
        ({
            let vain = outputs::unsupported(Some(setting), mode);
            &&& vain.disabled <==> setting.enabled == Some(false)
            &&& vain.vrr <==> setting.vrr is Some
            &&& setting.mode is None ==> !vain.mode
            &&& setting.transform is None ==> !vain.transform
            &&& setting.mode matches Some(form) ==> (config::mode_meaning(
                form.text@,
                form.refresh,
            ) matches Ok(wanted) ==> (vain.mode <==> wanted != mode))
            &&& setting.transform matches Some(name) ==> (config::transform_meaning(
                name@,
            ) matches Ok(turned) ==> (vain.transform <==> turned != OutputTransform::Normal))
        }),
        ({
            let vain = outputs::unsupported(None, mode);
            !vain.mode && !vain.disabled && !vain.vrr && !vain.transform
        }),
{
}

/// A connector of a card is named by its file behind the name of the card, if
/// its status says that a display is connected.
pub proof fn connectors_are_named_by_their_files(
    card: Seq<char>,
    name: Seq<char>,
    entry: ConnectorEntry,
)
    requires
        entry.file_name@ == card + "-"@ + name,
        entry.status is Some,
    ensures
        text::trimmed(entry.status->0@) == "connected"@ ==> outputs::connected_name(card, entry)
            == Some(name),
        text::trimmed(entry.status->0@) != "connected"@ ==> outputs::connected_name(card, entry)
            is None,
{
    let prefix = card + "-"@;
    assert(entry.file_name@.subrange(0, prefix.len() as int) =~= prefix);
    assert(entry.file_name@.skip(prefix.len() as int) =~= name);
}

/// A timer is set for when the delay has passed, unless one rings before that.
pub proof fn timers_ring_no_later_than_asked(p: PacerModel, now: int, delay: int)
    requires
        delay > 0,
    ensures
        p.scheduled(now, delay).wakeup matches Some(at) && now < at <= now + delay,
        (p.wakeup matches Some(at) && now < at <= now + delay) ==> p.scheduled(now, delay) == p,
        p.scheduled(now, delay).last == p.last,
        p.scheduled(now, delay).redraw == p.redraw,
        p.scheduled(now, delay).pending == p.pending,
{
}

/// A frame counts as drawn exactly if something was damaged; its times are added
/// up, and the longest is kept.
pub proof fn frames_are_counted(t: TimerModel, build: u64, render: u64, damaged: bool)
    requires
        t.build + build <= u128::MAX,
        t.render + render <= u128::MAX,
        t.frames < u32::MAX,
        t.total_frames < u64::MAX,
        t.empty_frames < u32::MAX,
        t.total_empty_frames < u64::MAX,
    ensures
        ({
            let next = t.recorded(build, render, damaged);
            &&& next.build - t.build == build
            &&& next.render - t.render == render
            &&& next.render_max >= render && next.render_max >= t.render_max
            &&& next.render_max == render || next.render_max == t.render_max
            &&& damaged ==> next.frames - t.frames == 1 && next.total_frames - t.total_frames == 1
                && next.empty_frames == t.empty_frames && next.total_empty_frames
                == t.total_empty_frames
            &&& !damaged ==> next.empty_frames - t.empty_frames == 1 && next.total_empty_frames
                - t.total_empty_frames == 1 && next.frames == t.frames && next.total_frames
                == t.total_frames
            &&& next.presents == t.presents && next.present_intervals == t.present_intervals
        }),
{
}

/// The time between two frames on the display is added up if it is under five
/// seconds.
pub proof fn times_between_frames_are_added_up(t: TimerModel, last: u64, now: u64)
    requires
        t.last_present == Some(last),
        now >= last,
        t.presents < u32::MAX,
        t.present_intervals + (now - last) <= u128::MAX,
    ensures
        t.presented(now).last_present == Some(now),
        now - last < 5_000_000_000 ==> t.presented(now).presents - t.presents == 1 && t.presented(
            now,
        ).present_intervals - t.present_intervals == now - last,
        now - last >= 5_000_000_000 ==> t.presented(now).presents == t.presents && t.presented(
            now,
        ).present_intervals == t.present_intervals,
{
}

/// A report gives what was counted since the last one, and the totals; then the
/// counting begins anew.
pub proof fn reports_cover_the_time_since_the_last(t: TimerModel, now: u64)
    requires
        now >= t.window_start,
        t.frames + t.empty_frames <= u32::MAX,
    ensures
        ({
            let stats = t.report(now);
            let next = t.restarted(now);
            &&& stats.frames == t.total_frames && stats.empty_frames == t.total_empty_frames
            &&& stats.interval_frames == t.frames
            &&& stats.attempts == t.frames + t.empty_frames
            &&& stats.interval == now - t.window_start
            &&& stats.build_total == t.build && stats.render_total == t.render
            &&& stats.render_max == t.render_max
            &&& stats.presents == t.presents && stats.present_total == t.present_intervals
            &&& next.window_start == now && next.frames == 0 && next.empty_frames == 0
            &&& next.build == 0 && next.render == 0 && next.render_max == 0 && next.presents == 0
                && next.present_intervals == 0
            &&& next.total_frames == t.total_frames && next.total_empty_frames
                == t.total_empty_frames && next.last_present == t.last_present
        }),
{
}

} // verus!
