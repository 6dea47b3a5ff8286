//! Choosing a graphics card, and the display, mode and controller on it.

use crate::config;
use crate::config::{NamedOutput, OutputConfig, OutputMode, OutputTransform};
use crate::geometry::Location;
use crate::layers;
use crate::reals::Real64;
use crate::text;
use vstd::prelude::*;

verus! {

/// A mode that a display offers.
#[derive(Debug, Clone, Copy, PartialEq, Eq, Structural)]
pub struct DisplayMode {
    pub width: i32,
    pub height: i32,
    /// The refresh rate in thousandths of a hertz.
    pub refresh: i32,
    pub preferred: bool,
}

/// A place where a display can be plugged in.
#[derive(Debug)]
pub struct Connector {
    pub name: String,
    pub connected: bool,
    pub modes: Vec<DisplayMode>,
    /// For each encoder, the controllers that it can work with.
    pub encoders: Vec<Vec<u32>>,
}

/// The display that was chosen.
#[derive(Debug, Clone, Copy, PartialEq, Eq, Structural)]
pub struct ChosenOutput {
    pub connector: usize,
    pub mode: usize,
    pub crtc: u32,
    /// The display is switched off in the configuration, as every other one.
    pub forced: bool,
}

/// The place of the settings for an output.
pub open spec fn setting_index(outputs: Seq<NamedOutput>, name: Seq<char>, from: int) -> Option<int>
    decreases outputs.len() - from,
{
    if from < 0 || from >= outputs.len() {
        None
    } else if outputs[from].name@ == name {
        Some(from)
    } else {
        setting_index(outputs, name, from + 1)
    }
}

/// The settings for an output.
pub open spec fn setting(outputs: Seq<NamedOutput>, name: Seq<char>) -> Option<OutputConfig> {
    match setting_index(outputs, name, 0) {
        Some(i) => Some(outputs[i].config),
        None => None,
    }
}

/// Finds the settings for an output.
pub fn output_setting<'a>(outputs: &'a Vec<NamedOutput>, name: &str) -> (r: Option<&'a OutputConfig>)
    ensures
        match r {
            Some(found) => setting(outputs@, name@) == Some(*found),
            None => setting(outputs@, name@) is None,
        },
{
    for i in 0..outputs.len()
        invariant
            setting_index(outputs@, name@, 0) == setting_index(outputs@, name@, i as int),
    {
        if text::text_eq(outputs[i].name.as_str(), name) {
            return Some(&outputs[i].config);
        }
    }
    None
}

/// The output is switched off in its settings.
pub open spec fn switched_off(setting: Option<OutputConfig>) -> bool {
    match setting {
        Some(setting) => setting.enabled == Some(false),
        None => false,
    }
}

/// The mode that the settings of an output ask for, if it can be read.
pub open spec fn wanted_mode(setting: Option<OutputConfig>) -> Option<OutputMode> {
    match setting {
        Some(setting) => match setting.mode {
            Some(mode) => match config::mode_meaning(mode.text@, mode.refresh) {
                Ok(mode) => Some(mode),
                Err(_) => None,
            },
            None => None,
        },
        None => None,
    }
}

fn requested_mode(setting: Option<&OutputConfig>) -> (r: Option<OutputMode>)
    ensures
        r == wanted_mode(
            match setting {
                Some(setting) => Some(*setting),
                None => None,
            },
        ),
{
    match setting {
        Some(setting) => match setting.parsed_mode() {
            Ok(mode) => mode,
            Err(_) => None,
        },
        None => None,
    }
}

/// The mode has the wanted size, and the wanted rate to within one hertz.
pub open spec fn serves(mode: DisplayMode, wanted: OutputMode) -> bool {
    mode.width == wanted.width && mode.height == wanted.height && -1000 <= mode.refresh
        - wanted.refresh_millihz <= 1000
}

/// The first mode from `from` on that serves.
pub open spec fn serving_mode(modes: Seq<DisplayMode>, wanted: OutputMode, from: int) -> Option<int>
    decreases modes.len() - from,
{
    if from < 0 || from >= modes.len() {
        None
    } else if serves(modes[from], wanted) {
        Some(from)
    } else {
        serving_mode(modes, wanted, from + 1)
    }
}

/// The first mode from `from` on that the display prefers.
pub open spec fn preferred_mode(modes: Seq<DisplayMode>, from: int) -> Option<int>
    decreases modes.len() - from,
{
    if from < 0 || from >= modes.len() {
        None
    } else if modes[from].preferred {
        Some(from)
    } else {
        preferred_mode(modes, from + 1)
    }
}

/// The mode to use: one that serves the wish, else the preferred one, else the
/// first.
pub open spec fn chosen_mode(modes: Seq<DisplayMode>, wanted: Option<OutputMode>) -> Option<int> {
    let serving = match wanted {
        Some(wanted) => serving_mode(modes, wanted, 0),
        None => None,
    };
    match serving {
        Some(i) => Some(i),
        None => match preferred_mode(modes, 0) {
            Some(i) => Some(i),
            None => if modes.len() > 0 {
                Some(0)
            } else {
                None
            },
        },
    }
}

/// Chooses the mode to use.
pub fn choose_mode(modes: &Vec<DisplayMode>, wanted: Option<OutputMode>) -> (r: Option<usize>)
    ensures
        match r {
            Some(i) => i < modes@.len() && chosen_mode(modes@, wanted) == Some(i as int),
            None => chosen_mode(modes@, wanted) is None,
        },
{
    if let Some(wish) = wanted {
        for i in 0..modes.len()
            invariant
                serving_mode(modes@, wish, 0) == serving_mode(modes@, wish, i as int),
                wanted == Some(wish),
        {
            let mode = modes[i];
            let gap: i64 = mode.refresh as i64 - wish.refresh_millihz as i64;
            if mode.width == wish.width && mode.height == wish.height && -1000 <= gap && gap
                <= 1000 {
                return Some(i);
            }
        }
    }
    for i in 0..modes.len()
        invariant
            preferred_mode(modes@, 0) == preferred_mode(modes@, i as int),
            wanted is Some ==> serving_mode(modes@, wanted->0, 0) is None,
    {
        if modes[i].preferred {
            return Some(i);
        }
    }
    if modes.len() > 0 {
        Some(0)
    } else {
        None
    }
}

/// The first controller, in the card's order, that an encoder works with.
pub open spec fn crtc_of(crtcs: Seq<u32>, able: Seq<u32>) -> Option<u32>
    decreases crtcs.len(),
{
    if crtcs.len() == 0 {
        None
    } else if able.contains(crtcs[0]) {
        Some(crtcs[0])
    } else {
        crtc_of(crtcs.drop_first(), able)
    }
}

/// The first controller that one of the encoders, from `from` on, works with.
pub open spec fn crtc_for(crtcs: Seq<u32>, encoders: Seq<Vec<u32>>, from: int) -> Option<u32>
    decreases encoders.len() - from,
{
    if from < 0 || from >= encoders.len() {
        None
    } else {
        match crtc_of(crtcs, encoders[from]@) {
            Some(crtc) => Some(crtc),
            None => crtc_for(crtcs, encoders, from + 1),
        }
    }
}

fn holds(values: &Vec<u32>, value: u32) -> (r: bool)
    ensures
        r == values@.contains(value),
{
    for i in 0..values.len()
        invariant
            forall|j: int| 0 <= j < i ==> values@[j] != value,
    {
        if values[i] == value {
            assert(values@.contains(value));
            return true;
        }
    }
    false
}

fn choose_crtc(crtcs: &Vec<u32>, encoders: &Vec<Vec<u32>>) -> (r: Option<u32>)
    ensures
        r == crtc_for(crtcs@, encoders@, 0),
{
    for e in 0..encoders.len()
        invariant
            crtc_for(crtcs@, encoders@, 0) == crtc_for(crtcs@, encoders@, e as int),
    {
        let able = &encoders[e];
        assert(crtcs@.skip(0) =~= crtcs@);
        for c in 0..crtcs.len()
            invariant
                able@ == encoders@[e as int]@,
                0 <= e < encoders@.len(),
                crtc_for(crtcs@, encoders@, 0) == crtc_for(crtcs@, encoders@, e as int),
                crtc_of(crtcs@, able@) == crtc_of(crtcs@.skip(c as int), able@),
        {
            assert(crtcs@.skip(c as int)[0] == crtcs@[c as int]);
            assert(crtcs@.skip(c as int).drop_first() =~= crtcs@.skip(c + 1));
            if holds(able, crtcs[c]) {
                return Some(crtcs[c]);
            }
        }
        assert(crtcs@.skip(crtcs@.len() as int).len() == 0);
    }
    None
}

/// What looking at a connector comes to.
pub enum Verdict {
    /// The next one is looked at.
    Skip,
    /// The search ends without a display.
    Stop,
    Take { mode: int, crtc: u32 },
}

/// A connector is passed over without a display, switched off, or without a
/// controller. A display without any mode ends the search.
pub open spec fn verdict(
    connector: Connector,
    crtcs: Seq<u32>,
    outputs: Seq<NamedOutput>,
    allow_disabled: bool,
) -> Verdict {
    let setting = setting(outputs, connector.name@);
    if !connector.connected || (switched_off(setting) && !allow_disabled) {
        Verdict::Skip
    } else {
        match chosen_mode(connector.modes@, wanted_mode(setting)) {
            None => Verdict::Stop,
            Some(mode) => match crtc_for(crtcs, connector.encoders@, 0) {
                Some(crtc) => Verdict::Take { mode, crtc },
                None => Verdict::Skip,
            },
        }
    }
}

/// The first connector from `from` on that is not passed over.
pub open spec fn search(
    connectors: Seq<Connector>,
    crtcs: Seq<u32>,
    outputs: Seq<NamedOutput>,
    allow_disabled: bool,
    from: int,
) -> (int, Verdict)
    decreases connectors.len() - from,
{
    if from < 0 || from >= connectors.len() {
        (from, Verdict::Skip)
    } else {
        match verdict(connectors[from], crtcs, outputs, allow_disabled) {
            Verdict::Skip => search(connectors, crtcs, outputs, allow_disabled, from + 1),
            found => (from, found),
        }
    }
}

/// The display to use: one that is not switched off, and where every one is,
/// one of those all the same, so that something shows.
pub open spec fn found_output(
    connectors: Seq<Connector>,
    crtcs: Seq<u32>,
    outputs: Seq<NamedOutput>,
) -> Option<ChosenOutput> {
    let first = search(connectors, crtcs, outputs, false, 0);
    let second = search(connectors, crtcs, outputs, true, 0);
    match first.1 {
        Verdict::Take { mode, crtc } => Some(
            ChosenOutput {
                connector: first.0 as usize,
                mode: mode as usize,
                crtc,
                forced: false,
            },
        ),
        Verdict::Stop => None,
        Verdict::Skip => match second.1 {
            Verdict::Take { mode, crtc } => Some(
                ChosenOutput {
                    connector: second.0 as usize,
                    mode: mode as usize,
                    crtc,
                    forced: true,
                },
            ),
            _ => None,
        },
    }
}

/// One pass over the connectors: nothing found, or the search is over.
fn search_pass(
    connectors: &Vec<Connector>,
    crtcs: &Vec<u32>,
    outputs: &Vec<NamedOutput>,
    allow_disabled: bool,
) -> (r: Option<Option<ChosenOutput>>)
    ensures
        ({
            let found = search(connectors@, crtcs@, outputs@, allow_disabled, 0);
            match found.1 {
                Verdict::Skip => r is None,
                Verdict::Stop => r == Some(None::<ChosenOutput>),
                Verdict::Take { mode, crtc } => 0 <= mode <= usize::MAX && r == Some(
                    Some(
                        ChosenOutput {
                            connector: found.0 as usize,
                            mode: mode as usize,
                            crtc,
                            forced: allow_disabled,
                        },
                    ),
                ),
            }
        }),
{
    for i in 0..connectors.len()
        invariant
            search(connectors@, crtcs@, outputs@, allow_disabled, 0) == search(
                connectors@,
                crtcs@,
                outputs@,
                allow_disabled,
                i as int,
            ),
    {
        let connector = &connectors[i];
        let setting = output_setting(outputs, connector.name.as_str());
        let off = match setting {
            Some(setting) => matches!(setting.enabled, Some(false)),
            None => false,
        };
        if connector.connected && (!off || allow_disabled) {
            match choose_mode(&connector.modes, requested_mode(setting)) {
                Some(mode) => match choose_crtc(crtcs, &connector.encoders) {
                    Some(crtc) => {
                        return Some(
                            Some(ChosenOutput { connector: i, mode, crtc, forced: allow_disabled }),
                        );
                    },
                    None => {},
                },
                None => {
                    return Some(None);
                },
            }
        }
    }
    None
}

/// Chooses the display to use, its mode and its controller.
pub fn find_output(
    connectors: &Vec<Connector>,
    crtcs: &Vec<u32>,
    outputs: &Vec<NamedOutput>,
) -> (r: Option<ChosenOutput>)
    ensures
        r == found_output(connectors@, crtcs@, outputs@),
{
    match search_pass(connectors, crtcs, outputs, false) {
        Some(found) => found,
        None => match search_pass(connectors, crtcs, outputs, true) {
            Some(found) => found,
            None => None,
        },
    }
}

proof fn lemma_search(
    connectors: Seq<Connector>,
    crtcs: Seq<u32>,
    outputs: Seq<NamedOutput>,
    allow_disabled: bool,
    from: int,
)
    requires
        0 <= from <= connectors.len(),
    ensures
        ({
            let found = search(connectors, crtcs, outputs, allow_disabled, from);
            &&& from <= found.0 <= connectors.len()
            &&& found.1 is Skip <==> found.0 == connectors.len()
            &&& found.0 < connectors.len() ==> verdict(
                connectors[found.0],
                crtcs,
                outputs,
                allow_disabled,
            ) == found.1
            &&& forall|i: int|
                from <= i < found.0 ==> verdict(
                    #[trigger] connectors[i],
                    crtcs,
                    outputs,
                    allow_disabled,
                ) is Skip
        }),
    decreases connectors.len() - from,
{
    if from < connectors.len() {
        lemma_search(connectors, crtcs, outputs, allow_disabled, from + 1);
    }
}

/// A display that is switched off is used only where no connector passes
/// without it, and a display is found wherever one with a mode and a
/// controller comes first.
pub proof fn a_visible_output_is_preferred(
    connectors: Seq<Connector>,
    crtcs: Seq<u32>,
    outputs: Seq<NamedOutput>,
)
    requires
        connectors.len() <= usize::MAX,
    ensures
        match found_output(connectors, crtcs, outputs) {
            Some(found) => {
                &&& found.connector < connectors.len()
                &&& connectors[found.connector as int].connected
                &&& switched_off(setting(outputs, connectors[found.connector as int].name@))
                    ==> found.forced
                &&& found.forced ==> forall|i: int|
                    0 <= i < connectors.len() ==> verdict(
                        #[trigger] connectors[i],
                        crtcs,
                        outputs,
                        false,
                    ) is Skip
            },
            None => true,
        },
{
    lemma_search(connectors, crtcs, outputs, false, 0);
    lemma_search(connectors, crtcs, outputs, true, 0);
}

/// Where and how an output is set up.
#[derive(Debug, Clone, Copy, PartialEq, Eq, Structural)]
pub struct OutputSetup {
    pub position: Location,
    pub transform: OutputTransform,
    pub scale: Option<Real64>,
    pub vrr: Option<bool>,
}

/// The set-up of an output: what its settings say, at the origin and upright
/// without them.
pub open spec fn setup_of(setting: Option<OutputConfig>) -> OutputSetup {
    match setting {
        Some(setting) => OutputSetup {
            position: match setting.position {
                Some(at) => Location { x: at[0], y: at[1] },
                None => Location { x: 0, y: 0 },
            },
            transform: match setting.transform {
                Some(value) => match config::transform_meaning(value@) {
                    Ok(transform) => transform,
                    Err(_) => OutputTransform::Normal,
                },
                None => OutputTransform::Normal,
            },
            scale: setting.scale,
            vrr: setting.vrr,
        },
        None => OutputSetup {
            position: Location { x: 0, y: 0 },
            transform: OutputTransform::Normal,
            scale: None,
            vrr: None,
        },
    }
}

/// How to set up an output.
pub fn output_setup(outputs: &Vec<NamedOutput>, name: &str) -> (r: OutputSetup)
    ensures
        r == setup_of(setting(outputs@, name@)),
{
    match output_setting(outputs, name) {
        Some(setting) => OutputSetup {
            position: match setting.position {
                Some(at) => Location { x: at[0], y: at[1] },
                None => Location { x: 0, y: 0 },
            },
            transform: match setting.parsed_transform() {
                Ok(Some(transform)) => transform,
                _ => OutputTransform::Normal,
            },
            scale: setting.scale,
            vrr: setting.vrr,
        },
        None => OutputSetup {
            position: Location { x: 0, y: 0 },
            transform: OutputTransform::Normal,
            scale: None,
            vrr: None,
        },
    }
}

/// What of an output's settings a nested compositor cannot do.
#[derive(Debug, Clone, Copy, PartialEq, Eq, Structural)]
pub struct Unsupported {
    /// The host decides on the mode.
    pub mode: bool,
    /// The only output stays on.
    pub disabled: bool,
    pub vrr: bool,
    pub transform: bool,
}

/// What of the settings cannot be done on a host window of the given mode.
pub open spec fn unsupported(setting: Option<OutputConfig>, mode: OutputMode) -> Unsupported {
    match setting {
        Some(found) => Unsupported {
            mode: match wanted_mode(setting) {
                Some(wanted) => wanted != mode,
                None => false,
            },
            disabled: found.enabled == Some(false),
            vrr: found.vrr is Some,
            transform: setup_of(setting).transform != OutputTransform::Normal,
        },
        None => Unsupported { mode: false, disabled: false, vrr: false, transform: false },
    }
}

/// What of an output's settings a nested compositor has to ignore.
pub fn unsupported_settings(outputs: &Vec<NamedOutput>, name: &str, mode: OutputMode) -> (r:
    Unsupported)
    ensures
        r == unsupported(setting(outputs@, name@), mode),
{
    match output_setting(outputs, name) {
        Some(found) => {
            let wanted = requested_mode(Some(found));
            let setup = output_setup(outputs, name);
            Unsupported {
                mode: match wanted {
                    Some(wanted) => wanted != mode,
                    None => false,
                },
                disabled: matches!(found.enabled, Some(false)),
                vrr: found.vrr.is_some(),
                transform: setup.transform != OutputTransform::Normal,
            }
        },
        None => Unsupported { mode: false, disabled: false, vrr: false, transform: false },
    }
}

/// An entry in the directory of a card: its name, and the status that is
/// written in it where it can be read.
#[derive(Debug)]
pub struct ConnectorEntry {
    pub file_name: String,
    pub status: Option<String>,
}

/// The connector that an entry stands for, if a display is connected there.
pub open spec fn connected_name(card: Seq<char>, entry: ConnectorEntry) -> Option<Seq<char>> {
    let prefix = card + "-"@;
    let name = entry.file_name@;
    match entry.status {
        Some(status) => if text::begins(name, prefix) && text::trimmed(status@) == "connected"@ {
            Some(name.skip(prefix.len() as int))
        } else {
            None
        },
        None => None,
    }
}

/// The connectors with a display, in the order of the entries.
pub open spec fn connected_names(card: Seq<char>, entries: Seq<ConnectorEntry>) -> Seq<Seq<char>>
    decreases entries.len(),
{
    if entries.len() == 0 {
        Seq::empty()
    } else {
        let rest = connected_names(card, entries.drop_last());
        match connected_name(card, entries.last()) {
            Some(name) => rest.push(name),
            None => rest,
        }
    }
}

fn connected_entry(card: &str, entry: &ConnectorEntry) -> (r: Option<String>)
    ensures
        text::option(r) == connected_name(card@, *entry),
{
    let prefix = text::join2(card, "-");
    let name = text::chars_of(entry.file_name.as_str());
    let wanted = text::chars_of(prefix.as_str());
    match &entry.status {
        Some(status) => {
            if wanted.len() > name.len() {
                return None;
            }
            let head = text::slice_of(name.as_slice(), 0, wanted.len());
            let chars = text::chars_of(status.as_str());
            let state = text::trim(chars.as_slice());
            if text::chars_eq(head.as_slice(), wanted.as_slice()) && text::chars_are(
                state.as_slice(),
                "connected",
            ) {
                let rest = text::slice_of(name.as_slice(), wanted.len(), name.len());
                assert(rest@ =~= name@.skip(wanted@.len() as int));
                Some(text::string_of(rest.as_slice()))
            } else {
                None
            }
        },
        None => None,
    }
}

/// The connectors of a card that have a display, sorted by name.
pub fn connected_outputs(card: &str, entries: &Vec<ConnectorEntry>) -> (names: Vec<String>)
    ensures
        layers::in_order(text::strings(names@)),
        text::strings(names@).to_multiset() == connected_names(card@, entries@).to_multiset(),
{
    let mut names: Vec<String> = Vec::new();
    assert(text::strings(names@) =~= connected_names(card@, entries@.take(0)));
    for i in 0..entries.len()
        invariant
            layers::in_order(text::strings(names@)),
            text::strings(names@).to_multiset() == connected_names(
                card@,
                entries@.take(i as int),
            ).to_multiset(),
    {
        assert(entries@.take(i + 1).drop_last() =~= entries@.take(i as int));
        match connected_entry(card, &entries[i]) {
            Some(name) => {
                proof {
                    broadcast use vstd::seq_lib::group_to_multiset_ensures;

                    let before = connected_names(card@, entries@.take(i as int));
                    assert(before.push(name@).to_multiset() == before.to_multiset().insert(name@));
                }
                layers::insert_name(&mut names, name);
            },
            None => {},
        }
    }
    assert(entries@.take(entries@.len() as int) =~= entries@);
    names
}

/// A graphics card.
#[derive(Debug)]
pub struct DrmCard {
    pub path: String,
    pub connected_outputs: Vec<String>,
}

/// The first card is better than the second: more displays are connected to
/// it, or as many and its path comes first.
pub open spec fn better(a: DrmCard, b: DrmCard) -> bool {
    a.connected_outputs@.len() > b.connected_outputs@.len() || (a.connected_outputs@.len()
        == b.connected_outputs@.len() && layers::comes_before(a.path@, b.path@))
}

/// Picks the card with the most displays, and among those the one whose path
/// comes first.
pub fn pick_best_drm_card(cards: &Vec<DrmCard>) -> (r: Option<usize>)
    ensures
        match r {
            Some(best) => best < cards@.len() && forall|i: int|
                0 <= i < cards@.len() ==> !better(#[trigger] cards@[i], cards@[best as int]),
            None => cards@.len() == 0,
        },
{
    if cards.len() == 0 {
        return None;
    }
    let mut best: usize = 0;
    proof {
        layers::lemma_irreflexive(cards@[0].path@);
    }
    for i in 1..cards.len()
        invariant
            best < i <= cards@.len(),
            forall|j: int| 0 <= j < i ==> !better(#[trigger] cards@[j], cards@[best as int]),
    {
        let here: usize = cards[i].connected_outputs.len();
        let most: usize = cards[best].connected_outputs.len();
        let path = text::chars_of(cards[i].path.as_str());
        let other = text::chars_of(cards[best].path.as_str());
        if here > most || (here == most && layers::is_before(path.as_slice(), other.as_slice())) {
            proof {
                layers::lemma_irreflexive(cards@[i as int].path@);
                assert forall|j: int| 0 <= j < i + 1 implies !better(
                    #[trigger] cards@[j],
                    cards@[i as int],
                ) by {
                    if j < i && better(cards@[j], cards@[i as int]) {
                        if layers::comes_before(cards@[j].path@, cards@[i as int].path@)
                            && layers::comes_before(
                            cards@[i as int].path@,
                            cards@[best as int].path@,
                        ) {
                            layers::lemma_comes_before(
                                cards@[j].path@,
                                cards@[i as int].path@,
                                cards@[best as int].path@,
                            );
                        }
                        assert(better(cards@[j], cards@[best as int]));
                    }
                }
            }
            best = i;
        }
    }
    Some(best)
}

} // verus!
