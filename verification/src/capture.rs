use std::collections::HashMap;

use vstd::prelude::*;

use crate::action::{Action, ActionView, spec_parse_action};
use crate::cli::{first_pos, lemma_first_pos, refused, scan_flag, take_pair, texts, without_pair};
use crate::error::{ForgeError, Result};
use crate::linux::{CaptureRouting, resolve_evdev_button_codes, spec_button_codes};
use crate::router::{AppProfile, pairs_map};
use crate::sysfs::{next_sep, next_sep_exec};

verus! {

broadcast use vstd::std_specs::hash::group_hash_axioms;

/// Why a command line is refused: a malformed argument, or a button name
/// that the configuration vocabulary does not know.
pub ghost enum Refusal {
    Invalid,
    Config,
}

/// A result that is the refusal `k`.
pub open spec fn refusal_fits<T>(r: Result<T>, k: Refusal) -> bool {
    match k {
        Refusal::Invalid => r matches Err(ForgeError::InvalidArgument(_)),
        Refusal::Config => r matches Err(ForgeError::ConfigError(_)),
    }
}

/// The map that `(code, action)` pairs build; a later pair for a code wins.
pub open spec fn view_map(pairs: Seq<(u16, ActionView)>) -> Map<u16, ActionView>
    decreases pairs.len(),
{
    if pairs.len() == 0 {
        Map::empty()
    } else {
        view_map(pairs.drop_last()).insert(pairs.last().0, pairs.last().1)
    }
}

/// The pairs with their actions taken by view.
pub open spec fn view_pairs(pairs: Seq<(u16, Action)>) -> Seq<(u16, ActionView)> {
    pairs.map_values(|p: (u16, Action)| (p.0, p.1@))
}

/// A map of actions taken by view.
pub open spec fn action_views(m: Map<u16, Action>) -> Map<u16, ActionView> {
    m.map_values(|a: Action| a@)
}

/// Every code bound to one action.
pub open spec fn bind_all(codes: Seq<u16>, a: ActionView) -> Seq<(u16, ActionView)> {
    codes.map_values(|c: u16| (c, a))
}

/// `s` split at its first `c`, as `str::split_once` splits it.
pub open spec fn split_once(s: Seq<char>, c: char) -> Option<(Seq<char>, Seq<char>)> {
    let k = next_sep(s, c, 0);
    if k < s.len() {
        Some((s.take(k), s.skip(k + 1)))
    } else {
        None
    }
}

/// A profile given on the command line: its id, application and bindings.
pub ghost struct ProfileView {
    pub id: Seq<char>,
    pub app_id: Seq<char>,
    pub bindings: Map<u16, ActionView>,
}

/// A profile that applies to `v.app_id` with `v`'s id and bindings.
pub open spec fn profile_matches(p: AppProfile, v: ProfileView) -> bool {
    &&& p.id@ == v.id
    &&& p.app_id matches Some(a) && a@ == v.app_id
    &&& p.executable is None
    &&& action_views(p.bindings@) == v.bindings
}

/// Taking every `--bind <button>=<action>` out of `args`, first to last;
/// each adds its action for every code of its button to `binds`. A refusal
/// comes with the arguments left at that point: a flag without a value is
/// left in place, a malformed pair has already been taken out.
pub open spec fn bind_pass(args: Seq<Seq<char>>, binds: Seq<(u16, ActionView)>) -> core::result::Result<
    (Seq<Seq<char>>, Seq<(u16, ActionView)>),
    (Refusal, Seq<Seq<char>>),
>
    decreases args.len(),
{
    let p = first_pos(args, "--bind"@);
    if p < 0 || p >= args.len() {
        Ok((args, binds))
    } else if p + 1 >= args.len() {
        Err((Refusal::Invalid, args))
    } else {
        let rest = without_pair(args, p);
        match split_once(args[p + 1], '=') {
            None => Err((Refusal::Invalid, rest)),
            Some((code, label)) => match spec_parse_action(label) {
                None => Err((Refusal::Invalid, rest)),
                Some(a) => match spec_button_codes(code) {
                    None => Err((Refusal::Config, rest)),
                    Some(codes) => bind_pass(without_pair(args, p), binds + bind_all(codes, a)),
                },
            },
        }
    }
}

/// Taking every `--profile <id>:<app>=<button>:<action>` out of `args`,
/// first to last; each adds one profile to `acc`. A refusal comes with the
/// arguments left at that point, as in `bind_pass`.
pub open spec fn profile_pass(args: Seq<Seq<char>>, acc: Seq<ProfileView>) -> core::result::Result<
    (Seq<Seq<char>>, Seq<ProfileView>),
    (Refusal, Seq<Seq<char>>),
>
    decreases args.len(),
{
    let p = first_pos(args, "--profile"@);
    if p < 0 || p >= args.len() {
        Ok((args, acc))
    } else if p + 1 >= args.len() {
        Err((Refusal::Invalid, args))
    } else {
        let rest = without_pair(args, p);
        match split_once(args[p + 1], '=') {
            None => Err((Refusal::Invalid, rest)),
            Some((target, action_label)) => match split_once(target, ':') {
                None => Err((Refusal::Invalid, rest)),
                Some((id, app_id)) => match split_once(action_label, ':') {
                    None => Err((Refusal::Invalid, rest)),
                    Some((code, label)) => match spec_parse_action(label) {
                        None => Err((Refusal::Invalid, rest)),
                        Some(a) => match spec_button_codes(code) {
                            None => Err((Refusal::Config, rest)),
                            Some(codes) => profile_pass(
                                without_pair(args, p),
                                acc.push(ProfileView { id, app_id, bindings: view_map(bind_all(codes, a)) }),
                            ),
                        },
                    },
                },
            },
        }
    }
}

/// The options of a capture session.
#[derive(Debug)]
pub struct CaptureOptions {
    pub event_path: String,
    pub bindings: HashMap<u16, Action>,
    pub profiles: Vec<AppProfile>,
}

fn split_once_exec(s: &str, c: char) -> (r: Option<(&str, &str)>)
    ensures
        match split_once(s@, c) {
            Some((a, b)) => r matches Some((x, y)) && x@ == a && y@ == b,
            None => r is None,
        },
{
    let n = s.unicode_len();
    let k = next_sep_exec(s, c, 0);
    if k >= n {
        return None;
    }
    let before = s.substring_char(0, k);
    let after = s.substring_char(k + 1, n);
    assert(before@ =~= s@.take(k as int));
    assert(after@ =~= s@.skip(k + 1));
    Some((before, after))
}

proof fn lemma_pairs_views(pairs: Seq<(u16, Action)>)
    ensures
        action_views(pairs_map(pairs)) == view_map(view_pairs(pairs)),
    decreases pairs.len(),
{
    if pairs.len() > 0 {
        lemma_pairs_views(pairs.drop_last());
        assert(view_pairs(pairs).drop_last() =~= view_pairs(pairs.drop_last()));
        assert(action_views(pairs_map(pairs)) =~= view_map(view_pairs(pairs)));
    } else {
        assert(action_views(pairs_map(pairs)) =~= view_map(view_pairs(pairs)));
    }
}

proof fn lemma_without_pair_len(args: Seq<Seq<char>>, p: int)
    requires
        0 <= p,
        p + 1 < args.len(),
    ensures
        without_pair(args, p).len() == args.len() - 2,
{
}

/// Binds every code of `codes` to `action` in `map`.
fn bind_codes(map: &mut HashMap<u16, Action>, codes: &Vec<u16>, action: &Action, Ghost(acc): Ghost<Seq<(u16, ActionView)>>)
    requires
        action_views(old(map)@) == view_map(acc),
    ensures
        action_views(final(map)@) == view_map(acc + bind_all(codes@, action@)),
{
    let mut i: usize = 0;
    while i < codes.len()
        invariant
            0 <= i <= codes@.len(),
            action_views(map@) == view_map(acc + bind_all(codes@.take(i as int), action@)),
        decreases codes@.len() - i,
    {
        let ghost before = map@;
        map.insert(codes[i], action.duplicate());
        proof {
            let s1 = acc + bind_all(codes@.take(i + 1), action@);
            assert(s1.drop_last() =~= acc + bind_all(codes@.take(i as int), action@));
            assert(action_views(map@) =~= view_map(s1));
        }
        i = i + 1;
    }
    assert(codes@.take(codes@.len() as int) =~= codes@);
}

/// The configured bindings, by view; none without a configuration.
pub open spec fn configured_binds(configured: Option<CaptureRouting>) -> Seq<(u16, ActionView)> {
    match configured {
        Some(c) => view_pairs(c.bindings@),
        None => seq![],
    }
}

/// The configured profiles; none without a configuration.
pub open spec fn configured_profiles(configured: Option<CaptureRouting>) -> Seq<AppProfile> {
    match configured {
        Some(c) => c.profiles@,
        None => seq![],
    }
}

/// Options that list the configured profiles `base`, then the command-line profiles `added`.
pub open spec fn profiles_listed(o: CaptureOptions, base: Seq<AppProfile>, added: Seq<ProfileView>) -> bool {
    &&& o.profiles@.len() == base.len() + added.len()
    &&& o.profiles@.take(base.len() as int) == base
    &&& forall|i: int| 0 <= i < added.len() ==> profile_matches(#[trigger] o.profiles@[base.len() + i], added[i])
}

/// What the capture options of the arguments `a` are, after the configured
/// bindings `base_binds` and profiles `base_profiles`, or why they are
/// refused; `left` is what remains of the arguments: nothing on success, and
/// on a refusal the arguments not yet taken when it came.
pub open spec fn capture_outcome(
    a: Seq<Seq<char>>,
    base_binds: Seq<(u16, ActionView)>,
    base_profiles: Seq<AppProfile>,
    r: Result<CaptureOptions>,
    left: Seq<Seq<char>>,
) -> bool {
    match bind_pass(a, base_binds) {
        Err((k, rest)) => refusal_fits(r, k) && left == rest,
        Ok((rest1, binds)) => match profile_pass(rest1, seq![]) {
            Err((k, rest)) => refusal_fits(r, k) && left == rest,
            Ok((rest2, added)) => if rest2.len() != 1 || (binds.len() == 0 && base_profiles.len()
                + added.len() == 0) {
                refused(r) && left == rest2
            } else {
                &&& r is Ok
                &&& left.len() == 0
                &&& r->Ok_0.event_path@ == rest2[0]
                &&& action_views(r->Ok_0.bindings@) == view_map(binds)
                &&& profiles_listed(r->Ok_0, base_profiles, added)
            },
        },
    }
}

/// The capture options a command line gives after `--config` was taken from
/// it and `configured` is what that configuration routes: `--bind` pairs
/// override configured bindings, `--profile` adds profiles, and one event
/// path must remain with at least one binding or profile.
pub fn parse_capture_options(args: &mut Vec<String>, configured: Option<CaptureRouting>) -> (r: Result<CaptureOptions>)
    ensures
        capture_outcome(
            texts(old(args)@),
            configured_binds(configured),
            configured_profiles(configured),
            r,
            texts(final(args)@),
        ),
        r is Ok ==> final(args)@.len() == 0,
{
    match configured {
        Some(c) => {
            options_from(args, c.bindings, c.profiles)
        },
        None => {
            let empty_bindings: Vec<(u16, Action)> = Vec::new();
            let empty_profiles: Vec<AppProfile> = Vec::new();
            assert(view_pairs(empty_bindings@) =~= seq![]);
            options_from(args, empty_bindings, empty_profiles)
        },
    }
}

fn options_from(args: &mut Vec<String>, configured_bindings: Vec<(u16, Action)>, profiles: Vec<AppProfile>) -> (r: Result<CaptureOptions>)
    ensures
        capture_outcome(texts(old(args)@), view_pairs(configured_bindings@), profiles@, r, texts(final(args)@)),
{
    let ghost a0 = texts(args@);
    let ghost configured_view = Some(CaptureRouting { bindings: configured_bindings, profiles });
    let mut profiles = profiles;
    let ghost base_profiles = profiles@;
    let ghost base_binds = view_pairs(configured_bindings@);
    proof {
        assert(base_binds == match configured_view {
            Some(c) => view_pairs(c.bindings@),
            None => seq![],
        });
        assert(base_profiles == match configured_view {
            Some(c) => c.profiles@,
            None => seq![],
        });
    }
    let mut bindings: HashMap<u16, Action> = HashMap::new();
    let mut any = false;
    let mut i: usize = 0;
    proof {
        assert(action_views(bindings@) =~= view_map(seq![]));
    }
    while i < configured_bindings.len()
        invariant
            0 <= i <= configured_bindings@.len(),
            action_views(bindings@) == view_map(view_pairs(configured_bindings@.take(i as int))),
            any == (i > 0),
        decreases configured_bindings@.len() - i,
    {
        let ghost before = bindings@;
        bindings.insert(configured_bindings[i].0, configured_bindings[i].1.duplicate());
        proof {
            let s1 = view_pairs(configured_bindings@.take(i + 1));
            assert(s1.drop_last() =~= view_pairs(configured_bindings@.take(i as int)));
            assert(action_views(bindings@) =~= view_map(s1));
        }
        any = true;
        i = i + 1;
    }
    assert(configured_bindings@.take(configured_bindings@.len() as int) =~= configured_bindings@);
    let ghost mut binds = view_pairs(configured_bindings@);
    proof {
        assert(any == (binds.len() > 0));
    }
    loop
        invariant
            a0 == texts(old(args)@),
            base_binds == view_pairs(configured_bindings@),
            base_binds == match configured_view {
                Some(c) => view_pairs(c.bindings@),
                None => seq![],
            },
            base_profiles == match configured_view {
                Some(c) => c.profiles@,
                None => seq![],
            },
            bind_pass(a0, base_binds) == bind_pass(texts(args@), binds),
            action_views(bindings@) == view_map(binds),
            any == (binds.len() > 0),
            profiles@ == base_profiles,
        ensures
            bind_pass(a0, base_binds) == Ok::<(Seq<Seq<char>>, Seq<(u16, ActionView)>), (Refusal, Seq<Seq<char>>)>((texts(args@), binds)),
            action_views(bindings@) == view_map(binds),
            any == (binds.len() > 0),
            profiles@ == base_profiles,
        decreases args@.len(),
    {
        let (p, _) = scan_flag(args, "--bind");
        proof {
            lemma_first_pos(texts(args@), "--bind"@);
        }
        if p >= args.len() {
            break;
        }
        if args.len() - p <= 1 {
            return Err(ForgeError::InvalidArgument("--bind requires code=action".to_owned()));
        }
        let ghost before_args = texts(args@);
        let binding = take_pair(args, p);
        proof {
            lemma_without_pair_len(before_args, p as int);
        }
        let (code, label) = match split_once_exec(binding.as_str(), '=') {
            Some(parts) => parts,
            None => {
                return Err(ForgeError::InvalidArgument("binding must look like 275=BrowserBack".to_owned()));
            },
        };
        let action = Action::parse(label)?;
        let codes = resolve_evdev_button_codes(code)?;
        bind_codes(&mut bindings, &codes, &action, Ghost(binds));
        if codes.len() > 0 {
            any = true;
        }
        proof {
            binds = binds + bind_all(codes@, action@);
        }
    }
    let ghost rest1 = texts(args@);
    let ghost mut acc: Seq<ProfileView> = seq![];
    loop
        invariant
            a0 == texts(old(args)@),
            base_binds == view_pairs(configured_bindings@),
            base_binds == match configured_view {
                Some(c) => view_pairs(c.bindings@),
                None => seq![],
            },
            base_profiles == match configured_view {
                Some(c) => c.profiles@,
                None => seq![],
            },
            bind_pass(a0, base_binds) == Ok::<(Seq<Seq<char>>, Seq<(u16, ActionView)>), (Refusal, Seq<Seq<char>>)>((rest1, binds)),
            action_views(bindings@) == view_map(binds),
            any == (binds.len() > 0),
            profile_pass(rest1, seq![]) == profile_pass(texts(args@), acc),
            profiles@.len() == base_profiles.len() + acc.len(),
            profiles@.take(base_profiles.len() as int) == base_profiles,
            forall|i: int| 0 <= i < acc.len() ==> profile_matches(
                #[trigger] profiles@[base_profiles.len() + i],
                acc[i],
            ),
        ensures
            profile_pass(rest1, seq![]) == Ok::<(Seq<Seq<char>>, Seq<ProfileView>), (Refusal, Seq<Seq<char>>)>((texts(args@), acc)),
            profiles@.len() == base_profiles.len() + acc.len(),
            profiles@.take(base_profiles.len() as int) == base_profiles,
            forall|i: int| 0 <= i < acc.len() ==> profile_matches(
                #[trigger] profiles@[base_profiles.len() + i],
                acc[i],
            ),
        decreases args@.len(),
    {
        let (p, _) = scan_flag(args, "--profile");
        proof {
            lemma_first_pos(texts(args@), "--profile"@);
        }
        if p >= args.len() {
            break;
        }
        if args.len() - p <= 1 {
            return Err(
                ForgeError::InvalidArgument("--profile requires profile-id:app-id=code:action".to_owned()),
            );
        }
        let ghost before_args = texts(args@);
        let specification = take_pair(args, p);
        proof {
            lemma_without_pair_len(before_args, p as int);
        }
        let (target, action_label) = match split_once_exec(specification.as_str(), '=') {
            Some(parts) => parts,
            None => {
                return Err(
                    ForgeError::InvalidArgument(
                        "profile must look like vscode:com.example.Editor=275:Copy".to_owned(),
                    ),
                );
            },
        };
        let (profile_id, app_id) = match split_once_exec(target, ':') {
            Some(parts) => parts,
            None => {
                return Err(
                    ForgeError::InvalidArgument("profile target must look like profile-id:app-id".to_owned()),
                );
            },
        };
        let (code, action_label) = match split_once_exec(action_label, ':') {
            Some(parts) => parts,
            None => {
                return Err(ForgeError::InvalidArgument("profile action must look like code:action".to_owned()));
            },
        };
        let action = Action::parse(action_label)?;
        let codes = resolve_evdev_button_codes(code)?;
        let mut pairs: Vec<(u16, Action)> = Vec::new();
        let mut j: usize = 0;
        while j < codes.len()
            invariant
                0 <= j <= codes@.len(),
                view_pairs(pairs@) == bind_all(codes@.take(j as int), action@),
            decreases codes@.len() - j,
        {
            let ghost before_pairs = pairs@;
            pairs.push((codes[j], action.duplicate()));
            proof {
                assert(codes@.take(j + 1) =~= codes@.take(j as int).push(codes@[j as int]));
                assert(bind_all(codes@.take(j + 1), action@) =~= bind_all(codes@.take(j as int), action@).push((codes@[j as int], action@)));
                assert(view_pairs(pairs@) =~= view_pairs(before_pairs).push((codes@[j as int], action@)));
            }
            j = j + 1;
        }
        assert(codes@.take(codes@.len() as int) =~= codes@);
        let profile = AppProfile::for_app(profile_id, app_id, pairs);
        proof {
            lemma_pairs_views(pairs@);
        }
        let ghost view = ProfileView { id: profile_id@, app_id: app_id@, bindings: view_map(bind_all(codes@, action@)) };
        let ghost before = profiles@;
        profiles.push(profile);
        proof {
            assert(profiles@.take(base_profiles.len() as int) =~= before.take(base_profiles.len() as int));
            let acc2 = acc.push(view);
            assert forall|i: int| 0 <= i < acc2.len() implies profile_matches(
                #[trigger] profiles@[base_profiles.len() + i],
                acc2[i],
            ) by {
                if i < acc.len() {
                    assert(profiles@[base_profiles.len() + i] == before[base_profiles.len() + i]);
                }
            }
            acc = acc2;
        }
    }
    if args.len() != 1 || (!any && profiles.len() == 0) {
        return Err(
            ForgeError::InvalidArgument(
                "capture requires one event path and bindings from --config, --bind, or --profile".to_owned(),
            ),
        );
    }
    let event_path = args.remove(0);
    Ok(CaptureOptions { event_path, bindings, profiles })
}

} // verus!
