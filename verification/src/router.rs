use std::collections::HashMap;

use vstd::prelude::*;

use crate::action::{Action, CommandView, InputCommand, command_refusal, spec_input_command};
use crate::error::{ForgeError, Result};

verus! {

broadcast use vstd::std_specs::hash::group_hash_axioms;

/// One evdev key event: a code and the value 1 (press), 0 (release) or 2 (repeat).
#[derive(Clone, Copy, Debug, PartialEq, Eq, Structural)]
pub struct ButtonEvent {
    pub code: u16,
    pub value: i32,
}

/// What to do for a routed event.
#[derive(Clone, Debug, PartialEq, Eq)]
pub enum Dispatch {
    Consume,
    Tap(InputCommand),
    HoldStart(InputCommand),
    HoldEnd(InputCommand),
}

pub ghost enum DispatchView {
    Consume,
    Tap(CommandView),
    HoldStart(CommandView),
    HoldEnd(CommandView),
}

impl View for Dispatch {
    type V = DispatchView;

    open spec fn view(&self) -> DispatchView {
        match self {
            Dispatch::Consume => DispatchView::Consume,
            Dispatch::Tap(c) => DispatchView::Tap(c@),
            Dispatch::HoldStart(c) => DispatchView::HoldStart(c@),
            Dispatch::HoldEnd(c) => DispatchView::HoldEnd(c@),
        }
    }
}

/// The dispatch of an event with value `value` on a control mapped to an
/// action that performs `command`: a press taps or starts a hold, the
/// release of a hold ends it, and every other value is swallowed.
pub open spec fn spec_dispatch(hold: bool, command: CommandView, value: i32) -> DispatchView {
    if value == 1 && hold {
        DispatchView::HoldStart(command)
    } else if value == 1 {
        DispatchView::Tap(command)
    } else if value == 0 && hold {
        DispatchView::HoldEnd(command)
    } else {
        DispatchView::Consume
    }
}

/// A hold's press and release bracket the same command, a tap acts on the
/// press alone, and auto-repeat never acts.
pub proof fn lemma_press_release_lifecycle(command: CommandView)
    ensures
        spec_dispatch(true, command, 1) == DispatchView::HoldStart(command),
        spec_dispatch(true, command, 0) == DispatchView::HoldEnd(command),
        spec_dispatch(false, command, 1) == DispatchView::Tap(command),
        spec_dispatch(false, command, 0) == DispatchView::Consume,
        spec_dispatch(true, command, 2) == DispatchView::Consume,
        spec_dispatch(false, command, 2) == DispatchView::Consume,
{
}

/// The application in the foreground.
#[derive(Clone, Debug, PartialEq, Eq)]
pub struct AppIdentity {
    pub id: String,
    pub name: String,
    pub executable: Option<String>,
}

impl AppIdentity {
    /// A copy of this identity with the same value.
    pub fn duplicate(&self) -> (r: AppIdentity)
        ensures
            r == *self,
    {
        AppIdentity {
            id: self.id.clone(),
            name: self.name.clone(),
            executable: match &self.executable {
                Some(e) => Some(e.clone()),
                None => None,
            },
        }
    }
}

/// Bindings that apply while a given application is in the foreground.
#[derive(Clone, Debug, PartialEq, Eq)]
pub struct AppProfile {
    pub id: String,
    pub app_id: Option<String>,
    pub executable: Option<String>,
    pub bindings: HashMap<u16, Action>,
}

/// The map that a list of `(code, action)` pairs builds; a later pair for
/// the same code replaces an earlier one.
pub open spec fn pairs_map(pairs: Seq<(u16, Action)>) -> Map<u16, Action>
    decreases pairs.len(),
{
    if pairs.len() == 0 {
        Map::empty()
    } else {
        pairs_map(pairs.drop_last()).insert(pairs.last().0, pairs.last().1)
    }
}

pub(crate) fn map_from_pairs(pairs: &Vec<(u16, Action)>) -> (r: HashMap<u16, Action>)
    ensures
        r@ == pairs_map(pairs@),
{
    let mut m: HashMap<u16, Action> = HashMap::new();
    let mut i: usize = 0;
    while i < pairs.len()
        invariant
            0 <= i <= pairs.len(),
            m@ == pairs_map(pairs@.take(i as int)),
        decreases pairs.len() - i,
    {
        let code = pairs[i].0;
        let action = pairs[i].1.duplicate();
        m.insert(code, action);
        assert(pairs@.take(i + 1).drop_last() =~= pairs@.take(i as int));
        i = i + 1;
    }
    assert(pairs@.take(pairs@.len() as int) =~= pairs@);
    m
}

/// How well a profile matches an application: `None` when a target it
/// names differs or it names none; otherwise 4 for a matching application
/// id plus 2 for a matching executable.
pub open spec fn spec_match_score(profile: AppProfile, app: AppIdentity) -> Option<int> {
    if profile.app_id is None && profile.executable is None {
        None
    } else if (profile.app_id matches Some(id) && id@ != app.id@) || (profile.executable matches Some(
        e,
    ) && !(app.executable matches Some(x) && x@ == e@)) {
        None
    } else {
        Some(
            (if profile.app_id is Some {
                4int
            } else {
                0int
            }) + (if profile.executable is Some {
                2int
            } else {
                0int
            }),
        )
    }
}

/// The profile chosen among the first `n`: the highest score, and among
/// equal scores the earliest.
pub open spec fn best_profile(profiles: Seq<AppProfile>, app: AppIdentity, n: int) -> Option<int>
    decreases n,
{
    if n <= 0 {
        None
    } else {
        let prior = best_profile(profiles, app, n - 1);
        match spec_match_score(profiles[n - 1], app) {
            None => prior,
            Some(s) => match prior {
                None => Some(n - 1),
                Some(p) => if s > spec_match_score(profiles[p], app).unwrap() {
                    Some(n - 1)
                } else {
                    prior
                },
            },
        }
    }
}

proof fn lemma_best_in_range(profiles: Seq<AppProfile>, app: AppIdentity, n: int)
    ensures
        best_profile(profiles, app, n) matches Some(i) ==> 0 <= i < n,
    decreases n,
{
    if n > 0 {
        lemma_best_in_range(profiles, app, n - 1);
    }
}

/// The profile that applies to the foreground application, if any.
pub open spec fn spec_select(profiles: Seq<AppProfile>, foreground: Option<AppIdentity>) -> Option<
    int,
> {
    match foreground {
        None => None,
        Some(app) => best_profile(profiles, app, profiles.len() as int),
    }
}

impl AppProfile {
    /// Creates a profile that applies to one stable application identifier.
    pub fn for_app(id: &str, app_id: &str, bindings: Vec<(u16, Action)>) -> (r: AppProfile)
        ensures
            r.id@ == id@,
            r.app_id matches Some(a) && a@ == app_id@,
            r.executable is None,
            r.bindings@ == pairs_map(bindings@),
    {
        AppProfile {
            id: id.to_owned(),
            app_id: Some(app_id.to_owned()),
            executable: None,
            bindings: map_from_pairs(&bindings),
        }
    }

    fn match_score(&self, app: &AppIdentity) -> (r: Option<u8>)
        ensures
            match spec_match_score(*self, *app) {
                Some(s) => r == Some(s as u8) && s <= 6,
                None => r is None,
            },
    {
        if self.app_id.is_none() && self.executable.is_none() {
            return None;
        }
        if let Some(id) = &self.app_id {
            if *id != app.id {
                return None;
            }
        }
        if let Some(executable) = &self.executable {
            match &app.executable {
                Some(x) => {
                    if *x != *executable {
                        return None;
                    }
                },
                None => {
                    return None;
                },
            }
        }
        let a: u8 = if self.app_id.is_some() {
            4
        } else {
            0
        };
        let e: u8 = if self.executable.is_some() {
            2
        } else {
            0
        };
        Some(a + e)
    }
}

/// Chooses the profile for `app`: the highest score, and among equal scores the earliest.
fn select_profile(profiles: &Vec<AppProfile>, app: &AppIdentity) -> (r: Option<usize>)
    ensures
        match best_profile(profiles@, *app, profiles@.len() as int) {
            Some(i) => r == Some(i as usize),
            None => r is None,
        },
        r matches Some(i) ==> i < profiles@.len(),
{
    proof {
        lemma_best_in_range(profiles@, *app, profiles@.len() as int);
    }
    let mut best: Option<usize> = None;
    let mut best_score: u8 = 0;
    let mut i: usize = 0;
    while i < profiles.len()
        invariant
            0 <= i <= profiles.len(),
            match best_profile(profiles@, *app, i as int) {
                Some(b) => best == Some(b as usize) && spec_match_score(profiles@[b], *app)
                    == Some(best_score as int) && 0 <= b < i,
                None => best is None,
            },
        decreases profiles.len() - i,
    {
        match profiles[i].match_score(app) {
            Some(score) => {
                if best.is_none() || score > best_score {
                    best = Some(i);
                    best_score = score;
                }
            },
            None => {},
        }
        i = i + 1;
    }
    best
}

fn select_for(profiles: &Vec<AppProfile>, foreground: &Option<AppIdentity>) -> (r: Option<usize>)
    ensures
        match spec_select(profiles@, *foreground) {
            Some(i) => r == Some(i as usize) && 0 <= i < profiles@.len(),
            None => r is None,
        },
        match r {
            Some(u) => spec_select(profiles@, *foreground) == Some(u as int),
            None => spec_select(profiles@, *foreground) is None,
        },
{
    let n = profiles.len();
    match foreground {
        Some(app) => {
            proof {
                lemma_best_in_range(profiles@, *app, profiles@.len() as int);
            }
            select_profile(profiles, app)
        },
        None => None,
    }
}

/// The bindings in force: the defaults, overridden by the active profile's bindings.
pub open spec fn spec_effective(
    defaults: Map<u16, Action>,
    profiles: Seq<AppProfile>,
    active: Option<int>,
) -> Map<u16, Action> {
    match active {
        None => defaults,
        Some(i) => defaults.union_prefer_right(profiles[i].bindings@),
    }
}


/// What the selection among the first `n` profiles guarantees.
pub open spec fn is_most_specific(profiles: Seq<AppProfile>, app: AppIdentity, n: int, chosen: Option<int>) -> bool {
    match chosen {
        Some(i) => {
            &&& 0 <= i < n
            &&& spec_match_score(profiles[i], app) is Some
            &&& forall|j: int|
                0 <= j < n && (#[trigger] spec_match_score(profiles[j], app)) is Some
                    ==> spec_match_score(profiles[j], app).unwrap() <= spec_match_score(
                    profiles[i],
                    app,
                ).unwrap()
            &&& forall|j: int|
                0 <= j < i && (#[trigger] spec_match_score(profiles[j], app)) is Some
                    ==> spec_match_score(profiles[j], app).unwrap() < spec_match_score(
                    profiles[i],
                    app,
                ).unwrap()
        },
        None => forall|j: int| 0 <= j < n ==> (#[trigger] spec_match_score(profiles[j], app)) is None,
    }
}

proof fn lemma_best_profile_prefix(profiles: Seq<AppProfile>, app: AppIdentity, n: int)
    requires
        0 <= n <= profiles.len(),
    ensures
        is_most_specific(profiles, app, n, best_profile(profiles, app, n)),
    decreases n,
{
    if n > 0 {
        lemma_best_profile_prefix(profiles, app, n - 1);
    }
}

/// The profile chosen for an application matches it, no profile matches it
/// more specifically, and every earlier profile matches it less specifically;
/// when none is chosen, no profile matches it at all.
pub proof fn lemma_most_specific_profile_wins(profiles: Seq<AppProfile>, app: AppIdentity)
    ensures
        is_most_specific(profiles, app, profiles.len() as int, spec_select(profiles, Some(app))),
{
    lemma_best_profile_prefix(profiles, app, profiles.len() as int);
}

/// The profile names the application's id.
pub open spec fn names_app_id(p: AppProfile, app: AppIdentity) -> bool {
    p.app_id matches Some(a) && a@ == app.id@
}

/// The profile names the application's executable.
pub open spec fn names_executable(p: AppProfile, app: AppIdentity) -> bool {
    p.executable matches Some(e) && app.executable matches Some(x) && x@ == e@
}

/// The profile applies to the application: it names a target, and every
/// target it names is the application's.
pub open spec fn applies_to(p: AppProfile, app: AppIdentity) -> bool {
    &&& p.app_id is Some || p.executable is Some
    &&& p.app_id is Some ==> names_app_id(p, app)
    &&& p.executable is Some ==> names_executable(p, app)
}

proof fn lemma_score_by_targets(p: AppProfile, app: AppIdentity)
    ensures
        spec_match_score(p, app) is Some <==> applies_to(p, app),
        applies_to(p, app) ==> spec_match_score(p, app) == Some(
            (if p.app_id is Some { 4int } else { 0int }) + (if p.executable is Some { 2int } else { 0int }),
        ),
{
}

/// Application id beats executable name: whenever a profile naming the
/// application's id applies, the profile chosen names the id too, so a
/// profile naming only the executable is never chosen over it, whatever the
/// order of the profiles; and when a profile naming both applies, the one
/// chosen names both. The chosen profile always applies, and none is chosen
/// when none applies.
pub proof fn lemma_application_id_beats_executable(profiles: Seq<AppProfile>, app: AppIdentity, i: int)
    requires
        0 <= i < profiles.len(),
    ensures
        spec_select(profiles, Some(app)) matches Some(k) ==> 0 <= k < profiles.len() && applies_to(profiles[k], app),
        spec_select(profiles, Some(app)) is None <==> forall|j: int| 0 <= j < profiles.len() ==> !#[trigger] applies_to(profiles[j], app),
        applies_to(profiles[i], app) && profiles[i].app_id is Some ==> (spec_select(profiles, Some(app)) matches Some(k)
            && profiles[k].app_id is Some),
        applies_to(profiles[i], app) && profiles[i].app_id is Some && profiles[i].executable is Some
            ==> (spec_select(profiles, Some(app)) matches Some(k) && profiles[k].app_id is Some && profiles[k].executable is Some),
        applies_to(profiles[i], app) ==> spec_select(profiles, Some(app)) is Some,
{
    lemma_best_profile_prefix(profiles, app, profiles.len() as int);
    lemma_score_by_targets(profiles[i], app);
    assert forall|j: int| 0 <= j < profiles.len() implies (spec_match_score(profiles[j], app) is Some <==> #[trigger] applies_to(profiles[j], app)) by {
        lemma_score_by_targets(profiles[j], app);
    }
    if let Some(k) = spec_select(profiles, Some(app)) {
        lemma_score_by_targets(profiles[k], app);
    }
}

/// Without a foreground application no profile applies and the default bindings are in force.
pub proof fn lemma_no_foreground_uses_defaults(
    defaults: Map<u16, Action>,
    profiles: Seq<AppProfile>,
)
    ensures
        spec_select(profiles, None) is None,
        spec_effective(defaults, profiles, spec_select(profiles, None)) == defaults,
{
}

struct Selection {
    foreground: Option<AppIdentity>,
    active: Option<usize>,
}

/// Routes button events through default bindings and per-application profiles.
pub struct ActionRouter {
    default_bindings: HashMap<u16, Action>,
    profiles: Vec<AppProfile>,
    selection: Selection,
}

impl ActionRouter {
    /// The active profile is always the one selected for the foreground application.
    #[verifier::type_invariant]
    spec fn selection_is_current(self) -> bool {
        match spec_select(self.profiles@, self.selection.foreground) {
            Some(i) => self.selection.active == Some(i as usize) && 0 <= i < self.profiles@.len(),
            None => self.selection.active is None,
        }
    }

    /// The default bindings.
    pub closed spec fn defaults(self) -> Map<u16, Action> {
        self.default_bindings@
    }

    /// The profiles, in the order they were given.
    pub closed spec fn profile_list(self) -> Seq<AppProfile> {
        self.profiles@
    }

    /// The application last reported in the foreground.
    pub closed spec fn foreground(self) -> Option<AppIdentity> {
        self.selection.foreground
    }

    /// The index of the profile in force, if any.
    pub closed spec fn active(self) -> Option<int> {
        match self.selection.active {
            Some(i) => Some(i as int),
            None => None,
        }
    }

    /// The bindings in force.
    pub open spec fn bindings(self) -> Map<u16, Action> {
        spec_effective(self.defaults(), self.profile_list(), self.active())
    }

    /// A router with the given default bindings and no profiles.
    pub fn new(bindings: Vec<(u16, Action)>) -> (r: ActionRouter)
        ensures
            r.defaults() == pairs_map(bindings@),
            r.profile_list().len() == 0,
            r.foreground() is None,
            r.active() is None,
    {
        ActionRouter {
            default_bindings: map_from_pairs(&bindings),
            profiles: Vec::new(),
            selection: Selection { foreground: None, active: None },
        }
    }

    /// A router with default bindings and per-application profiles; no
    /// application is in the foreground yet.
    pub fn with_profiles(bindings: Vec<(u16, Action)>, profiles: Vec<AppProfile>) -> (r: ActionRouter)
        ensures
            r.defaults() == pairs_map(bindings@),
            r.profile_list() == profiles@,
            r.foreground() is None,
            r.active() is None,
    {
        ActionRouter {
            default_bindings: map_from_pairs(&bindings),
            profiles,
            selection: Selection { foreground: None, active: None },
        }
    }

    /// Updates the foreground application and swaps the bindings in force.
    ///
    /// The highest-specificity matching profile wins: application ID beats
    /// executable name, and a profile matching both beats either-only profiles.
    pub fn set_foreground_app(&mut self, foreground: Option<AppIdentity>) -> (r: Option<String>)
        ensures
            final(self).defaults() == old(self).defaults(),
            final(self).profile_list() == old(self).profile_list(),
            final(self).foreground() == foreground,
            final(self).active() == spec_select(old(self).profile_list(), foreground),
            match final(self).active() {
                Some(i) => r matches Some(id) && id@ == final(self).profile_list()[i].id@,
                None => r is None,
            },
    {
        let active = select_for(&self.profiles, &foreground);
        let result = match active {
            Some(i) => Some(self.profiles[i].id.clone()),
            None => None,
        };
        self.selection = Selection { foreground, active };
        result
    }

    /// The id of the profile in force.
    pub fn active_profile_id(&self) -> (r: Option<String>)
        ensures
            match self.active() {
                Some(i) => r matches Some(id) && id@ == self.profile_list()[i].id@,
                None => r is None,
            },
    {
        proof {
            use_type_invariant(self);
        }
        match self.selection.active {
            Some(i) => Some(self.profiles[i].id.clone()),
            None => None,
        }
    }

    /// The application last reported in the foreground.
    pub fn foreground_app(&self) -> (r: Option<AppIdentity>)
        ensures
            r == self.foreground(),
    {
        match &self.selection.foreground {
            Some(app) => Some(app.duplicate()),
            None => None,
        }
    }

    fn lookup(&self, code: u16) -> (r: Option<&Action>)
        ensures
            match r {
                Some(a) => self.bindings().contains_key(code) && *a == self.bindings()[code],
                None => !self.bindings().contains_key(code),
            },
    {
        proof {
            use_type_invariant(self);
        }
        if let Some(i) = self.selection.active {
            if let Some(action) = self.profiles[i].bindings.get(&code) {
                return Some(action);
            }
        }
        self.default_bindings.get(&code)
    }

    /// Routes one evdev key event; only controls mapped in the bindings in
    /// force are consumed.
    pub fn route(&self, event: ButtonEvent) -> (r: Result<Option<Dispatch>>)
        ensures
            !self.bindings().contains_key(event.code) ==> r == Ok::<Option<Dispatch>, ForgeError>(
                None,
            ),
            self.bindings().contains_key(event.code) ==> {
                let action = self.bindings()[event.code];
                match spec_input_command(action@) {
                    Some(c) => r matches Ok(Some(d)) && d@ == spec_dispatch(
                        action is HoldShortcut,
                        c,
                        event.value,
                    ),
                    None => r matches Err(ForgeError::InvalidArgument(m)) && m@ == command_refusal(action@),
                }
            },
    {
        let action = match self.lookup(event.code) {
            Some(action) => action,
            None => {
                return Ok(None);
            },
        };
        let command = action.input_command()?;
        let hold = action.is_hold();
        let dispatch = if event.value == 1 && hold {
            Dispatch::HoldStart(command)
        } else if event.value == 1 {
            Dispatch::Tap(command)
        } else if event.value == 0 && hold {
            Dispatch::HoldEnd(command)
        } else {
            Dispatch::Consume
        };
        Ok(Some(dispatch))
    }
}


/// A source of the desktop's foreground application.
pub trait ForegroundAppProvider: Send {
    /// The current foreground application, if the desktop exposes one.
    fn current(&mut self) -> Result<Option<AppIdentity>>;
}

fn duplicate_app(app: &Option<AppIdentity>) -> (r: Option<AppIdentity>)
    ensures
        r == *app,
{
    match app {
        Some(a) => Some(a.duplicate()),
        None => None,
    }
}

/// Takes in one foreground report: a reported application (or none) becomes
/// the router's foreground application and is handed back; a failed query
/// is handed back and leaves the router as it was.
pub fn record_foreground(observed: Result<Option<AppIdentity>>, router: &mut ActionRouter) -> (r: Result<
    Option<AppIdentity>,
>)
    ensures
        r == observed,
        match observed {
            Ok(app) => {
                &&& final(router).defaults() == old(router).defaults()
                &&& final(router).profile_list() == old(router).profile_list()
                &&& final(router).foreground() == app
                &&& final(router).active() == spec_select(old(router).profile_list(), app)
            },
            Err(_) => *final(router) == *old(router),
        },
{
    match observed {
        Ok(app) => {
            let reported = duplicate_app(&app);
            router.set_foreground_app(app);
            Ok(reported)
        },
        Err(e) => Err(e),
    }
}

/// One poll of a foreground watcher: what the provider reports becomes the
/// router's foreground application; a failed query leaves the router as it was.
pub fn follow_foreground<P: ForegroundAppProvider>(provider: &mut P, router: &mut ActionRouter) -> (r: Result<
    Option<AppIdentity>,
>)
    ensures
        match r {
            Ok(app) => {
                &&& final(router).defaults() == old(router).defaults()
                &&& final(router).profile_list() == old(router).profile_list()
                &&& final(router).foreground() == app
                &&& final(router).active() == spec_select(old(router).profile_list(), app)
            },
            Err(_) => *final(router) == *old(router),
        },
{
    record_foreground(provider.current(), router)
}

} // verus!
