//! The user's settings: session size, time per photo, the challenge list
//! (built-in challenges that can be switched off, plus custom ones), and the
//! folders used last. Saved settings are merged with the current built-in list
//! when they are loaded.
use vstd::prelude::*;
use crate::text::{decimal, decimal_string, lemma_decimal_injective, opt_text, texts};
use crate::random::{choose_text, thread_rng};

verus! {

broadcast use vstd::string::group_string_axioms;

/// How many built-in challenges there are.
pub const DEFAULT_CHALLENGE_COUNT: usize = 16;

/// The built-in challenge texts, in order.
pub open spec fn default_challenge_text(i: int) -> Seq<char> {
    if i == 0 {
        "Convert the photo to black and white. No color at all."@
    } else if i == 1 {
        "Push the white balance drastically warmer or cooler than a neutral read."@
    } else if i == 2 {
        "Use only the Effects panel: grain, dehaze, vignette. Leave every other panel at zero."@
    } else if i == 3 {
        "Every slider you touch must land on exactly -100, 0, or +100. No in-between values."@
    } else if i == 4 {
        "Crop to a square and recompose the shot entirely."@
    } else if i == 5 {
        "Push exposure and contrast as far as you can while keeping the subject recognizable."@
    } else if i == 6 {
        "Edit using only the Tone Curve panel. Leave the Basic panel untouched."@
    } else if i == 7 {
        "Clip both tonal extremes on purpose: push the shadows to pure black and the highlights to a full blowout in the same edit."@
    } else if i == 8 {
        "Desaturate everything except one color."@
    } else if i == 9 {
        "Push the vignette as far as you can before it feels wrong."@
    } else if i == 10 {
        "Use split toning to give the shadows and highlights two different color casts."@
    } else if i == 11 {
        "Push sharpening, clarity, and dehaze all to their maximum, then back off by 10 percent."@
    } else if i == 12 {
        "Try to recover as much detail as possible from the darkest shadows."@
    } else if i == 13 {
        "Use only the HSL panel to change colors. Don't touch exposure or contrast."@
    } else if i == 14 {
        "Add heavy grain, at least +50, and treat it as a deliberate stylistic choice rather than a flaw."@
    } else {
        "Cut the saturation exactly in half."@
    }
}

fn default_challenge_str(i: usize) -> (s: &'static str)
    requires
        i < DEFAULT_CHALLENGE_COUNT,
    ensures
        s@ == default_challenge_text(i as int),
{
    if i == 0 {
        "Convert the photo to black and white. No color at all."
    } else if i == 1 {
        "Push the white balance drastically warmer or cooler than a neutral read."
    } else if i == 2 {
        "Use only the Effects panel: grain, dehaze, vignette. Leave every other panel at zero."
    } else if i == 3 {
        "Every slider you touch must land on exactly -100, 0, or +100. No in-between values."
    } else if i == 4 {
        "Crop to a square and recompose the shot entirely."
    } else if i == 5 {
        "Push exposure and contrast as far as you can while keeping the subject recognizable."
    } else if i == 6 {
        "Edit using only the Tone Curve panel. Leave the Basic panel untouched."
    } else if i == 7 {
        "Clip both tonal extremes on purpose: push the shadows to pure black and the highlights to a full blowout in the same edit."
    } else if i == 8 {
        "Desaturate everything except one color."
    } else if i == 9 {
        "Push the vignette as far as you can before it feels wrong."
    } else if i == 10 {
        "Use split toning to give the shadows and highlights two different color casts."
    } else if i == 11 {
        "Push sharpening, clarity, and dehaze all to their maximum, then back off by 10 percent."
    } else if i == 12 {
        "Try to recover as much detail as possible from the darkest shadows."
    } else if i == 13 {
        "Use only the HSL panel to change colors. Don't touch exposure or contrast."
    } else if i == 14 {
        "Add heavy grain, at least +50, and treat it as a deliberate stylistic choice rather than a flaw."
    } else {
        "Cut the saturation exactly in half."
    }
}

/// One editing challenge: built in (with an id `builtin-<n>`) or added by the user.
#[derive(Debug, Clone)]
pub struct ChallengeDef {
    pub id: String,
    pub text: String,
    pub enabled: bool,
    pub custom: bool,
}

/// The value of a challenge.
pub struct ChallengeView {
    pub id: Seq<char>,
    pub text: Seq<char>,
    pub enabled: bool,
    pub custom: bool,
}

impl View for ChallengeDef {
    type V = ChallengeView;

    open spec fn view(&self) -> ChallengeView {
        ChallengeView { id: self.id@, text: self.text@, enabled: self.enabled, custom: self.custom }
    }
}

/// All settings of the application.
#[derive(Debug, Clone)]
pub struct Settings {
    pub photos_per_session: usize,
    pub seconds_per_photo: u64,
    pub challenges: Vec<ChallengeDef>,
    pub last_archive_root: Option<String>,
    pub last_export_root: Option<String>,
}

/// The value of the settings.
pub struct SettingsView {
    pub photos_per_session: usize,
    pub seconds_per_photo: u64,
    pub challenges: Seq<ChallengeView>,
    pub last_archive_root: Option<Seq<char>>,
    pub last_export_root: Option<Seq<char>>,
}

/// The values of a list of challenges.
pub open spec fn challenge_views(challenges: Seq<ChallengeDef>) -> Seq<ChallengeView> {
    challenges.map_values(|c: ChallengeDef| c@)
}

impl View for Settings {
    type V = SettingsView;

    open spec fn view(&self) -> SettingsView {
        SettingsView {
            photos_per_session: self.photos_per_session,
            seconds_per_photo: self.seconds_per_photo,
            challenges: challenge_views(self.challenges@),
            last_archive_root: opt_text(self.last_archive_root),
            last_export_root: opt_text(self.last_export_root),
        }
    }
}

/// The id of the `i`-th built-in challenge: `builtin-<i>`.
pub open spec fn builtin_id(i: nat) -> Seq<char> {
    "builtin-"@ + decimal(i)
}

/// The built-in challenges, all enabled and none custom.
pub open spec fn default_challenge_views() -> Seq<ChallengeView> {
    Seq::new(
        DEFAULT_CHALLENGE_COUNT as nat,
        |i: int| ChallengeView {
            id: builtin_id(i as nat),
            text: default_challenge_text(i),
            enabled: true,
            custom: false,
        },
    )
}

/// The default settings: three photos of five minutes each, all built-in
/// challenges, no remembered folders.
pub open spec fn default_settings() -> SettingsView {
    SettingsView {
        photos_per_session: 3,
        seconds_per_photo: 300,
        challenges: default_challenge_views(),
        last_archive_root: None,
        last_export_root: None,
    }
}

fn builtin_id_string(i: usize) -> (s: String)
    ensures
        s@ == builtin_id(i as nat),
{
    let mut s = "builtin-".to_string();
    let digits = decimal_string(i);
    s.append(digits.as_str());
    s
}

/// The built-in challenges, with ids `builtin-0`, `builtin-1`, ..., all enabled.
pub fn default_challenge_defs() -> (defs: Vec<ChallengeDef>)
    ensures
        challenge_views(defs@) == default_challenge_views(),
{
    let mut defs: Vec<ChallengeDef> = Vec::new();
    for i in 0..DEFAULT_CHALLENGE_COUNT
        invariant
            defs@.len() == i,
            forall|j: int| 0 <= j < i ==> #[trigger] defs@[j]@ == default_challenge_views()[j],
    {
        let def = ChallengeDef {
            id: builtin_id_string(i),
            text: default_challenge_str(i).to_string(),
            enabled: true,
            custom: false,
        };
        defs.push(def);
    }
    assert(challenge_views(defs@) =~= default_challenge_views());
    defs
}

impl Default for Settings {
    /// The default settings.
    fn default() -> (s: Self)
        ensures
            s@ == default_settings(),
    {
        Settings {
            photos_per_session: 3,
            seconds_per_photo: 300,
            challenges: default_challenge_defs(),
            last_archive_root: None,
            last_export_root: None,
        }
    }
}

/// Settings after the load at start-up: the saved settings merged with the
/// defaults, or the defaults when nothing could be read. The flag says whether the
/// defaults are to be written back, which is the case exactly when nothing was read.
pub fn settings_after_load(loaded: Option<Settings>) -> (r: (Settings, bool))
    ensures
        r.1 == loaded is None,
        r.0@ == match loaded {
            Some(saved) => merged_settings(saved@),
            None => default_settings(),
        },
{
    match loaded {
        Some(saved) => (merge_with_defaults(saved), false),
        None => (Settings::default(), true),
    }
}

impl Settings {
    /// Remembers the archive and export folders of a session that is starting.
    pub fn remember_roots(&mut self, archive_root: String, export_root: String)
        ensures
            final(self)@ == (SettingsView {
                last_archive_root: Some(archive_root@),
                last_export_root: Some(export_root@),
                ..old(self)@
            }),
    {
        self.last_archive_root = Some(archive_root);
        self.last_export_root = Some(export_root);
    }
}

/// The texts of the enabled challenges, in order.
pub open spec fn enabled_texts(challenges: Seq<ChallengeView>) -> Seq<Seq<char>> {
    challenges.filter(|c: ChallengeView| c.enabled).map_values(|c: ChallengeView| c.text)
}

/// The challenge shown when every challenge is switched off.
pub open spec fn fallback_challenge() -> Seq<char> {
    "Edit the photo (no challenges enabled -- check Settings)."@
}

/// `text` is a challenge that a step may be given: one of the enabled
/// challenges, or the fallback text when none is enabled.
pub open spec fn is_possible_challenge(challenges: Seq<ChallengeView>, text: Seq<char>) -> bool {
    if enabled_texts(challenges).len() == 0 {
        text == fallback_challenge()
    } else {
        enabled_texts(challenges).contains(text)
    }
}

/// The texts of the enabled challenges of `settings`, in order.
pub fn enabled_challenge_texts(settings: &Settings) -> (r: Vec<String>)
    ensures
        texts(r@) == enabled_texts(settings@.challenges),
{
    let ghost views = settings@.challenges;
    let mut r: Vec<String> = Vec::new();
    let n = settings.challenges.len();
    for i in 0..n
        invariant
            n == settings.challenges@.len(),
            views == settings@.challenges,
            texts(r@) == enabled_texts(views.take(i as int)),
    {
        let c = &settings.challenges[i];
        proof {
            assert(views.take(i + 1) =~= views.take(i as int).push(views[i as int]));
            views.take(i as int).lemma_filter_push(views[i as int], |c: ChallengeView| c.enabled);
        }
        assert(views[i as int] == c@);
        if c.enabled {
            let ghost before = r@;
            r.push(c.text.clone());
            let ghost f = views.take(i as int).filter(|c: ChallengeView| c.enabled);
            assert(views.take(i + 1).filter(|c: ChallengeView| c.enabled) == f.push(views[i as int]));
            assert(texts(r@) =~= texts(before).push(c.text@));
            assert(f.push(views[i as int]).map_values(|c: ChallengeView| c.text) =~= f.map_values(|c: ChallengeView| c.text).push(c.text@));
            assert(texts(r@) =~= enabled_texts(views.take(i + 1)));
        } else {
            assert(texts(r@) =~= enabled_texts(views.take(i + 1)));
        }
    }
    assert(views.take(n as int) =~= views);
    r
}

/// The challenge for a step, given the random choice among the enabled
/// challenges: the chosen text, or the fallback text when there was nothing to choose.
pub fn challenge_or_fallback(choice: Option<String>) -> (r: String)
    ensures
        r@ == match choice {
            Some(c) => c@,
            None => fallback_challenge(),
        },
{
    match choice {
        Some(c) => c,
        None => "Edit the photo (no challenges enabled -- check Settings).".to_string(),
    }
}

/// Draws the challenge for a step at random among the enabled challenges, or
/// gives the fallback text when every challenge is switched off.
pub fn pick_challenge(settings: &Settings) -> (r: String)
    ensures
        is_possible_challenge(settings@.challenges, r@),
{
    let mut rng = thread_rng();
    let enabled = enabled_challenge_texts(settings);
    let choice = choose_text(&enabled, &mut rng);
    let r = challenge_or_fallback(choice);
    proof {
        if enabled@.len() > 0 {
            let i = choose|i: int| 0 <= i < enabled@.len() && #[trigger] enabled@[i]@ == r@;
            assert(texts(enabled@)[i] == r@);
        }
    }
    r
}

/// `v` held within `lo..=hi` (`Ord::clamp`).
pub open spec fn clamp(v: int, lo: int, hi: int) -> int {
    if v < lo {
        lo
    } else if v > hi {
        hi
    } else {
        v
    }
}

/// The smallest and largest number of photos in a session.
pub const MIN_PHOTOS_PER_SESSION: usize = 1;
pub const MAX_PHOTOS_PER_SESSION: usize = 20;
/// The shortest and longest time per photo, in seconds.
pub const MIN_SECONDS_PER_PHOTO: u64 = 5;
pub const MAX_SECONDS_PER_PHOTO: u64 = 3600;

fn clamp_photos(v: usize) -> (r: usize)
    ensures
        r == clamp(v as int, MIN_PHOTOS_PER_SESSION as int, MAX_PHOTOS_PER_SESSION as int),
{
    if v < MIN_PHOTOS_PER_SESSION {
        MIN_PHOTOS_PER_SESSION
    } else if v > MAX_PHOTOS_PER_SESSION {
        MAX_PHOTOS_PER_SESSION
    } else {
        v
    }
}

fn clamp_seconds(v: u64) -> (r: u64)
    ensures
        r == clamp(v as int, MIN_SECONDS_PER_PHOTO as int, MAX_SECONDS_PER_PHOTO as int),
{
    if v < MIN_SECONDS_PER_PHOTO {
        MIN_SECONDS_PER_PHOTO
    } else if v > MAX_SECONDS_PER_PHOTO {
        MAX_SECONDS_PER_PHOTO
    } else {
        v
    }
}

/// `s` with the session size and time per photo held within their ranges.
pub open spec fn clamped(s: SettingsView) -> SettingsView {
    SettingsView {
        photos_per_session: clamp(
            s.photos_per_session as int,
            MIN_PHOTOS_PER_SESSION as int,
            MAX_PHOTOS_PER_SESSION as int,
        ) as usize,
        seconds_per_photo: clamp(
            s.seconds_per_photo as int,
            MIN_SECONDS_PER_PHOTO as int,
            MAX_SECONDS_PER_PHOTO as int,
        ) as u64,
        ..s
    }
}

/// Settings as the user saves them: session size and time per photo held within
/// their ranges, everything else as given.
pub fn clamp_settings(settings: Settings) -> (r: Settings)
    ensures
        r@ == clamped(settings@),
        MIN_PHOTOS_PER_SESSION <= r.photos_per_session <= MAX_PHOTOS_PER_SESSION,
        MIN_SECONDS_PER_PHOTO <= r.seconds_per_photo <= MAX_SECONDS_PER_PHOTO,
{
    Settings {
        photos_per_session: clamp_photos(settings.photos_per_session),
        seconds_per_photo: clamp_seconds(settings.seconds_per_photo),
        challenges: settings.challenges,
        last_archive_root: settings.last_archive_root,
        last_export_root: settings.last_export_root,
    }
}

/// `i` is the first position in `saved` whose challenge has the id `id`.
pub open spec fn is_first_with_id(saved: Seq<ChallengeView>, id: Seq<char>, i: int) -> bool {
    &&& 0 <= i < saved.len()
    &&& saved[i].id == id
    &&& forall|j: int| 0 <= j < i ==> saved[j].id != id
}

/// The enabled flag of the first saved challenge with the id `id`, if any has it.
pub open spec fn saved_flag(saved: Seq<ChallengeView>, id: Seq<char>) -> Option<bool> {
    if exists|i: int| is_first_with_id(saved, id, i) {
        Some(saved[choose|i: int| is_first_with_id(saved, id, i)].enabled)
    } else {
        None
    }
}

/// A built-in challenge after a merge: it takes the enabled flag that the saved
/// settings hold for its id, if they hold one.
pub open spec fn merge_builtin(def: ChallengeView, saved: Seq<ChallengeView>) -> ChallengeView {
    match saved_flag(saved, def.id) {
        Some(flag) => ChallengeView { enabled: flag, ..def },
        None => def,
    }
}

/// The custom challenges among `saved`, in order.
pub open spec fn custom_challenges(saved: Seq<ChallengeView>) -> Seq<ChallengeView> {
    saved.filter(|c: ChallengeView| c.custom)
}

/// The challenge list after a merge: the current built-in challenges, in order,
/// with the saved flags, then the saved custom challenges, in order. Saved
/// challenges that are neither custom nor current built-ins are dropped.
pub open spec fn merged_challenges(saved: Seq<ChallengeView>) -> Seq<ChallengeView> {
    default_challenge_views().map_values(|d: ChallengeView| merge_builtin(d, saved))
        + custom_challenges(saved)
}

/// Saved settings merged with the current defaults.
pub open spec fn merged_settings(saved: SettingsView) -> SettingsView {
    SettingsView { challenges: merged_challenges(saved.challenges), ..clamped(saved) }
}

fn saved_flag_for(saved: &Vec<ChallengeDef>, id: &String) -> (r: Option<bool>)
    ensures
        r == saved_flag(challenge_views(saved@), id@),
{
    let ghost views = challenge_views(saved@);
    let mut i: usize = 0;
    while i < saved.len()
        invariant
            i <= saved@.len(),
            views == challenge_views(saved@),
            forall|j: int| 0 <= j < i ==> views[j].id != id@,
        decreases saved@.len() - i,
    {
        if saved[i].id == *id {
            proof {
                assert(is_first_with_id(views, id@, i as int));
                let k = choose|k: int| is_first_with_id(views, id@, k);
                assert(k == i) by {
                    if k < i {
                        assert(views[k].id != id@);
                    } else if k > i {
                        assert(views[i as int].id != id@);
                    }
                }
            }
            return Some(saved[i].enabled);
        }
        i = i + 1;
    }
    proof {
        assert(!exists|k: int| is_first_with_id(views, id@, k));
    }
    None
}

fn copy_challenge(c: &ChallengeDef) -> (r: ChallengeDef)
    ensures
        r@ == c@,
{
    ChallengeDef { id: c.id.clone(), text: c.text.clone(), enabled: c.enabled, custom: c.custom }
}

/// Merges settings read from disk with the current defaults: every current
/// built-in challenge keeps the enabled flag saved for its id, saved custom
/// challenges follow in their order, saved built-ins that no longer exist are
/// dropped, the session size and time per photo are held within their ranges,
/// and the remembered folders are kept.
pub fn merge_with_defaults(saved: Settings) -> (merged: Settings)
    ensures
        merged@ == merged_settings(saved@),
        MIN_PHOTOS_PER_SESSION <= merged.photos_per_session <= MAX_PHOTOS_PER_SESSION,
        MIN_SECONDS_PER_PHOTO <= merged.seconds_per_photo <= MAX_SECONDS_PER_PHOTO,
{
    let ghost saved_views = challenge_views(saved.challenges@);
    let defaults = default_challenge_defs();
    let mut challenges: Vec<ChallengeDef> = Vec::new();
    for k in 0..defaults.len()
        invariant
            challenge_views(defaults@) == default_challenge_views(),
            saved_views == challenge_views(saved.challenges@),
            challenges@.len() == k,
            forall|j: int|
                0 <= j < k ==> #[trigger] challenges@[j]@ == merge_builtin(
                    default_challenge_views()[j],
                    saved_views,
                ),
    {
        let def = &defaults[k];
        assert(def@ == default_challenge_views()[k as int]);
        let enabled = match saved_flag_for(&saved.challenges, &def.id) {
            Some(flag) => flag,
            None => def.enabled,
        };
        challenges.push(
            ChallengeDef { id: def.id.clone(), text: def.text.clone(), enabled, custom: def.custom },
        );
    }
    let ghost builtins = challenges@;
    let n = saved.challenges.len();
    for i in 0..n
        invariant
            n == saved.challenges@.len(),
            saved_views == challenge_views(saved.challenges@),
            builtins.len() == DEFAULT_CHALLENGE_COUNT,
            challenges@.len() >= DEFAULT_CHALLENGE_COUNT,
            challenges@.subrange(0, DEFAULT_CHALLENGE_COUNT as int) == builtins,
            challenge_views(challenges@.subrange(DEFAULT_CHALLENGE_COUNT as int, challenges@.len() as int))
                == custom_challenges(saved_views.take(i as int)),
    {
        let c = &saved.challenges[i];
        proof {
            assert(saved_views.take(i + 1) =~= saved_views.take(i as int).push(saved_views[i as int]));
            saved_views.take(i as int).lemma_filter_push(saved_views[i as int], |c: ChallengeView| c.custom);
        }
        if c.custom {
            let ghost before = challenges@;
            challenges.push(copy_challenge(c));
            assert(challenges@.subrange(DEFAULT_CHALLENGE_COUNT as int, challenges@.len() as int)
                =~= before.subrange(DEFAULT_CHALLENGE_COUNT as int, before.len() as int).push(challenges@[before.len() as int]));
            assert(challenges@.subrange(0, DEFAULT_CHALLENGE_COUNT as int) =~= before.subrange(0, DEFAULT_CHALLENGE_COUNT as int));
        }
    }
    proof {
        assert(saved_views.take(n as int) =~= saved_views);
        assert(challenge_views(challenges@) =~= merged_challenges(saved_views)) by {
            let m = challenges@;
            let tail = m.subrange(DEFAULT_CHALLENGE_COUNT as int, m.len() as int);
            assert forall|j: int| 0 <= j < m.len() implies challenge_views(m)[j] == merged_challenges(saved_views)[j] by {
                if j >= DEFAULT_CHALLENGE_COUNT {
                    assert(tail[j - DEFAULT_CHALLENGE_COUNT] == m[j]);
                    assert(challenge_views(tail)[j - DEFAULT_CHALLENGE_COUNT] == m[j]@);
                } else {
                    assert(builtins[j] == m[j]);
                }
            }
            assert(challenge_views(tail).len() == tail.len());
        }
    }
    Settings {
        photos_per_session: clamp_photos(saved.photos_per_session),
        seconds_per_photo: clamp_seconds(saved.seconds_per_photo),
        challenges,
        last_archive_root: saved.last_archive_root,
        last_export_root: saved.last_export_root,
    }
}

proof fn lemma_builtin_ids_distinct(i: nat, j: nat)
    requires
        builtin_id(i) == builtin_id(j),
    ensures
        i == j,
{
    let p = "builtin-"@;
    assert(builtin_id(i).skip(p.len() as int) =~= decimal(i));
    assert(builtin_id(j).skip(p.len() as int) =~= decimal(j));
    lemma_decimal_injective(i, j);
}

/// In a list that starts with one challenge per built-in id, in order, the saved
/// flag for the `i`-th built-in id is the flag at position `i`.
proof fn lemma_flag_of_leading_builtin(m: Seq<ChallengeView>, i: int)
    requires
        0 <= i < DEFAULT_CHALLENGE_COUNT,
        m.len() >= DEFAULT_CHALLENGE_COUNT,
        forall|j: int| 0 <= j < DEFAULT_CHALLENGE_COUNT ==> #[trigger] m[j].id == builtin_id(j as nat),
    ensures
        saved_flag(m, builtin_id(i as nat)) == Some(m[i].enabled),
{
    let id = builtin_id(i as nat);
    assert forall|j: int| 0 <= j < i implies m[j].id != id by {
        if m[j].id == id {
            lemma_builtin_ids_distinct(j as nat, i as nat);
        }
    }
    assert(is_first_with_id(m, id, i));
    let k = choose|k: int| is_first_with_id(m, id, k);
    assert(k == i) by {
        if k < i {
            assert(m[k].id != id);
        } else if k > i {
            assert(m[i].id != id);
        }
    }
}

proof fn lemma_filter_none(s: Seq<ChallengeView>)
    requires
        forall|i: int| 0 <= i < s.len() ==> !(#[trigger] s[i]).custom,
    ensures
        custom_challenges(s) == Seq::<ChallengeView>::empty(),
    decreases s.len(),
{
    reveal(Seq::filter);
    if s.len() > 0 {
        lemma_filter_none(s.drop_last());
    }
}

proof fn lemma_filter_all(s: Seq<ChallengeView>)
    requires
        forall|i: int| 0 <= i < s.len() ==> (#[trigger] s[i]).custom,
    ensures
        custom_challenges(s) == s,
    decreases s.len(),
{
    reveal(Seq::filter);
    if s.len() > 0 {
        lemma_filter_all(s.drop_last());
        assert(s.drop_last().push(s.last()) =~= s);
    }
}

/// Loading settings that were themselves produced by a merge changes nothing:
/// merging is idempotent.
pub proof fn lemma_merge_is_idempotent(saved: SettingsView)
    ensures
        merged_settings(merged_settings(saved)) == merged_settings(saved),
{
    let m = merged_challenges(saved.challenges);
    let d = default_challenge_views();
    let builtins = d.map_values(|x: ChallengeView| merge_builtin(x, saved.challenges));
    let customs = custom_challenges(saved.challenges);
    assert(m == builtins + customs);
    assert forall|j: int| 0 <= j < DEFAULT_CHALLENGE_COUNT implies #[trigger] m[j].id == builtin_id(j as nat) by {
        assert(m[j] == builtins[j]);
    }
    assert forall|j: int| 0 <= j < DEFAULT_CHALLENGE_COUNT implies merge_builtin(d[j], m) == m[j] by {
        lemma_flag_of_leading_builtin(m, j);
        assert(m[j] == builtins[j]);
    }
    assert forall|j: int| 0 <= j < builtins.len() implies !(#[trigger] builtins[j]).custom by {}
    lemma_filter_none(builtins);
    assert forall|j: int| 0 <= j < customs.len() implies (#[trigger] customs[j]).custom by {
        saved.challenges.lemma_filter_pred(|c: ChallengeView| c.custom, j);
    }
    lemma_filter_all(customs);
    Seq::filter_distributes_over_add(builtins, customs, |c: ChallengeView| c.custom);
    assert(custom_challenges(m) =~= customs);
    assert(merged_challenges(m) =~= m);
}

/// The default settings come back unchanged from a merge: a first load, which
/// saves the defaults, and the next load agree.
pub proof fn lemma_defaults_survive_merge()
    ensures
        merged_settings(default_settings()) == default_settings(),
{
    let d = default_challenge_views();
    assert forall|j: int| 0 <= j < DEFAULT_CHALLENGE_COUNT implies #[trigger] d[j].id == builtin_id(j as nat) by {}
    assert forall|j: int| 0 <= j < DEFAULT_CHALLENGE_COUNT implies merge_builtin(d[j], d) == d[j] by {
        lemma_flag_of_leading_builtin(d, j);
    }
    assert forall|j: int| 0 <= j < d.len() implies !(#[trigger] d[j]).custom by {}
    lemma_filter_none(d);
    assert(merged_challenges(d) =~= d);
}

/// After a merge, the first entries are exactly the current built-in challenges,
/// in order and with their texts, and every later entry is a custom challenge:
/// a saved built-in whose id is no longer current never survives.
pub proof fn lemma_merge_keeps_only_builtins_and_customs(saved: SettingsView)
    ensures
        ({
            let m = merged_settings(saved).challenges;
            &&& m.len() >= DEFAULT_CHALLENGE_COUNT
            &&& forall|j: int| 0 <= j < DEFAULT_CHALLENGE_COUNT ==> {
                &&& #[trigger] m[j].id == builtin_id(j as nat)
                &&& m[j].text == default_challenge_text(j)
                &&& !m[j].custom
            }
            &&& forall|j: int| DEFAULT_CHALLENGE_COUNT <= j < m.len() ==> (#[trigger] m[j]).custom
        }),
{
    let m = merged_challenges(saved.challenges);
    let d = default_challenge_views();
    let builtins = d.map_values(|x: ChallengeView| merge_builtin(x, saved.challenges));
    let customs = custom_challenges(saved.challenges);
    assert forall|j: int| DEFAULT_CHALLENGE_COUNT <= j < m.len() implies (#[trigger] m[j]).custom by {
        assert(m[j] == customs[j - DEFAULT_CHALLENGE_COUNT]);
        saved.challenges.lemma_filter_pred(|c: ChallengeView| c.custom, j - DEFAULT_CHALLENGE_COUNT);
    }
    assert forall|j: int| 0 <= j < DEFAULT_CHALLENGE_COUNT implies #[trigger] m[j].id == builtin_id(j as nat) && m[j].text == default_challenge_text(j) && !m[j].custom by {
        assert(m[j] == builtins[j]);
    }
}

} // verus!
