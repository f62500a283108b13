//! The action that keys are bound to: presses and holds, and how a key looks.

use crate::apps::{app_views, AppEntry, AppView};
use crate::backend::{select_backend, selected, BackendKind};
use crate::encoding::base64_text;
use crate::icon::{
    build_image_payload, data_uri, image_bytes, law_an_image_holds_the_file, mime_of,
    IconEncodeError,
};
use crate::outside::extension_of;
use crate::report::{nothing, one_line, report_line, silence, LogLevel, Report, ReportView};
use crate::run::Goal;
use crate::settings::{
    find_selected, icon_source_of, law_a_key_without_a_target, law_the_target_of_a_key,
    overridden, resolve_display_name, resolve_icon_source,
    selected_app, FocusOrLaunchSettings, IconSource, IconSourceView, SettingsView,
};
use crate::text::{opt_str_view, opt_view};
use vstd::hash_map::StringHashMap;
use vstd::prelude::*;

verus! {

/// How long a key must be held down, in nanoseconds, for its release to count
/// as a hold and not as a press: half a second.
pub const HOLD_THRESHOLD: u128 = 500_000_000;

/// Whether a key that was held down for `elapsed` was held, both in
/// nanoseconds.
pub fn is_hold(elapsed: u128, threshold: u128) -> (r: bool)
    ensures
        r == (elapsed >= threshold),
{
    elapsed >= threshold
}

/// The action, for all keys that are bound to it.
pub struct FocusOrLaunchAction {
    /// The session's window tool, if it has one that is supported.
    backend: Option<BackendKind>,
    /// When each key that is down was pressed, by the key's id.
    key_down_at: StringHashMap<u128>,
}

/// The contents of a [`FocusOrLaunchAction`].
#[verifier::ext_equal]
pub struct ActionView {
    pub backend: Option<BackendKind>,
    pub key_down_at: Map<Seq<char>, u128>,
}

impl View for FocusOrLaunchAction {
    type V = ActionView;

    closed spec fn view(&self) -> ActionView {
        ActionView { backend: self.backend, key_down_at: self.key_down_at@ }
    }
}

/// Whether a key that is released at `now` was held: it was pressed before,
/// and that long enough ago.
pub open spec fn was_held(key_down_at: Map<Seq<char>, u128>, key: Seq<char>, now: u128) -> bool {
    key_down_at.contains_key(key) && now - key_down_at[key] >= HOLD_THRESHOLD
}

/// The action once a key went down.
pub open spec fn pressed(action: ActionView, key: Seq<char>, now: u128) -> ActionView {
    ActionView { key_down_at: action.key_down_at.insert(key, now), ..action }
}

/// The action once a key was released.
pub open spec fn released(action: ActionView, key: Seq<char>) -> ActionView {
    ActionView { key_down_at: action.key_down_at.remove(key), ..action }
}

/// What the release of a key is for.
pub open spec fn goal_of_release(held: bool, close_all_windows_on_hold: bool) -> Goal {
    if held && close_all_windows_on_hold {
        Goal::CloseAll
    } else {
        Goal::FocusOrLaunch
    }
}

/// What the release of a key with these settings at `now` is for.
pub open spec fn goal_of_key(
    action: ActionView,
    key: Seq<char>,
    settings: SettingsView,
    now: u128,
) -> Goal {
    goal_of_release(
        was_held(action.key_down_at, key, now),
        settings.close_all_windows_on_hold,
    )
}

/// The action for a session, with no key down.
pub open spec fn fresh_action(
    desktop: Option<Seq<char>>,
    session_type: Option<Seq<char>>,
    display: Option<Seq<char>>,
) -> ActionView {
    ActionView { backend: selected(desktop, session_type, display), key_down_at: Map::empty() }
}

/// What to tell where the session has no window tool that is supported.
pub open spec fn no_backend_report() -> ReportView {
    one_line(
        LogLevel::Error,
        "no supported window backend for this desktop session; taking no action"@,
        true,
    )
}

/// What to tell when the action is set up.
pub open spec fn startup_report_of(backend: Option<BackendKind>) -> ReportView {
    if backend is Some {
        silence()
    } else {
        one_line(
            LogLevel::Error,
            "no supported window backend for this desktop session; Focus or Launch keys will do nothing until this is resolved"@,
            false,
        )
    }
}

impl FocusOrLaunchAction {
    /// The action for a session with these values of `XDG_CURRENT_DESKTOP`,
    /// `XDG_SESSION_TYPE` and `DISPLAY`; no key is down.
    pub fn new(
        desktop: Option<&str>,
        session_type: Option<&str>,
        display: Option<&str>,
    ) -> (r: Self)
        ensures
            r@ == fresh_action(
                opt_str_view(desktop),
                opt_str_view(session_type),
                opt_str_view(display),
            ),
    {
        FocusOrLaunchAction {
            backend: select_backend(desktop, session_type, display),
            key_down_at: StringHashMap::new(),
        }
    }

    /// The session's window tool, if it has one that is supported.
    pub fn backend(&self) -> (r: Option<BackendKind>)
        ensures
            r == self@.backend,
    {
        self.backend
    }

    /// The session's window tool, or what to tell where there is none and
    /// nothing is done.
    pub fn require_backend(&self) -> (r: Result<BackendKind, Report>)
        ensures
            match r {
                Ok(kind) => self@.backend == Some(kind),
                Err(report) => self@.backend is None && report@ == no_backend_report(),
            },
    {
        match self.backend {
            Some(kind) => Ok(kind),
            None => Err(
                report_line(
                    LogLevel::Error,
                    "no supported window backend for this desktop session; taking no action".to_owned(),
                    true,
                ),
            ),
        }
    }

    /// What to tell when the action is set up: an error where the session has
    /// no window tool that is supported, else nothing.
    pub fn startup_report(&self) -> (r: Report)
        ensures
            r@ == startup_report_of(self@.backend),
    {
        match self.backend {
            Some(_) => nothing(),
            None => report_line(
                LogLevel::Error,
                "no supported window backend for this desktop session; Focus or Launch keys will do nothing until this is resolved".to_owned(),
                false,
            ),
        }
    }

    /// Notes that a key went down at `now`, on a clock in nanoseconds that
    /// never goes back.
    pub fn key_down(&mut self, key: &str, now: u128)
        ensures
            final(self)@ == pressed(old(self)@, key@, now),
    {
        self.key_down_at.insert(key.to_owned(), now);
    }

    /// What the release of a key at `now` is for: to close all windows where
    /// the key was held and is set to do so, else to focus or launch. The key
    /// is no longer down.
    pub fn key_up(&mut self, key: &str, settings: &FocusOrLaunchSettings, now: u128) -> (r: Goal)
        ensures
            r == goal_of_key(old(self)@, key@, settings@, now),
            final(self)@ == released(old(self)@, key@),
    {
        let held = match self.key_down_at.get(key) {
            Some(at) => {
                let elapsed: u128 = if now >= *at {
                    now - *at
                } else {
                    0
                };
                is_hold(elapsed, HOLD_THRESHOLD)
            },
            None => false,
        };
        self.key_down_at.remove(key);
        if held && settings.close_all_windows_on_hold {
            Goal::CloseAll
        } else {
            Goal::FocusOrLaunch
        }
    }
}

/// A key that was pressed and released closes all windows exactly where it is
/// set to do so and half a second has passed between the two, whatever other
/// keys are down and whatever the key did before.
pub proof fn law_a_hold_lasts_half_a_second(
    key_down_at: Map<Seq<char>, u128>,
    key: Seq<char>,
    pressed: u128,
    released: u128,
    close_all_windows_on_hold: bool,
)
    ensures
        goal_of_release(
            was_held(key_down_at.insert(key, pressed), key, released),
            close_all_windows_on_hold,
        ) == if close_all_windows_on_hold && released - pressed >= HOLD_THRESHOLD {
            Goal::CloseAll
        } else {
            Goal::FocusOrLaunch
        },
{
}

/// A release counts a press but once: a key that was released is not held
/// until it is pressed again.
pub proof fn law_a_release_ends_the_press(
    key_down_at: Map<Seq<char>, u128>,
    key: Seq<char>,
    now: u128,
)
    ensures
        !was_held(key_down_at.remove(key), key, now),
{
}

/// Keys do not get in each other's way: pressing or releasing one key leaves
/// how long another is down.
pub proof fn law_keys_are_independent(
    key_down_at: Map<Seq<char>, u128>,
    key: Seq<char>,
    other: Seq<char>,
    pressed: u128,
    now: u128,
)
    requires
        key != other,
    ensures
        was_held(key_down_at.insert(other, pressed), key, now) == was_held(key_down_at, key, now),
        was_held(key_down_at.remove(other), key, now) == was_held(key_down_at, key, now),
{
}

// ---------------------------------------------------------------------------
// How a key looks
// ---------------------------------------------------------------------------
/// How a key is to look.
#[derive(Debug, PartialEq, Eq)]
pub struct Visuals {
    pub title: String,
    pub icon: IconSource,
    /// The id of the application.
    pub app_id: String,
}

/// The contents of [`Visuals`].
#[verifier::ext_equal]
pub struct VisualsView {
    pub title: Seq<char>,
    pub icon: IconSourceView,
    pub app_id: Seq<char>,
}

impl View for Visuals {
    type V = VisualsView;

    open spec fn view(&self) -> VisualsView {
        VisualsView { title: self.title@, icon: self.icon@, app_id: self.app_id@ }
    }
}

/// How a key is to look: as the application that it is bound to, but for what
/// is overridden; a key that is bound to none stays as it is.
pub open spec fn visuals_of(settings: SettingsView, apps: Seq<AppView>) -> Option<VisualsView> {
    match selected_app(settings, apps) {
        Some(entry) => Some(
            VisualsView {
                title: overridden(settings.name_override, entry.name),
                icon: icon_source_of(settings.icon_override, entry.path),
                app_id: entry.id,
            },
        ),
        None => None,
    }
}

/// How a key with these settings is to look, if it is bound to an application
/// that is installed.
pub fn apply_visuals(settings: &FocusOrLaunchSettings, apps: &[AppEntry]) -> (r: Option<Visuals>)
    ensures
        match r {
            Some(v) => visuals_of(settings@, app_views(apps@)) == Some(v@),
            None => visuals_of(settings@, app_views(apps@)) is None,
        },
{
    match find_selected(settings, apps) {
        Some(entry) => Some(
            Visuals {
                title: resolve_display_name(settings, entry),
                icon: resolve_icon_source(settings, entry),
                app_id: entry.id.clone(),
            },
        ),
        None => None,
    }
}

/// What to do about a key's image.
#[derive(Debug, PartialEq, Eq)]
pub enum ImageStep {
    /// Read the icon file at this path.
    Read(String),
    /// Set the image from this text.
    SetImage(String),
    /// Leave the image, and warn with this line.
    Warn(String),
}

/// The contents of an [`ImageStep`].
#[verifier::ext_equal]
pub enum ImageStepView {
    Read(Seq<char>),
    SetImage(Seq<char>),
    Warn(Seq<char>),
}

impl View for ImageStep {
    type V = ImageStepView;

    open spec fn view(&self) -> ImageStepView {
        match *self {
            ImageStep::Read(path) => ImageStepView::Read(path@),
            ImageStep::SetImage(payload) => ImageStepView::SetImage(payload@),
            ImageStep::Warn(line) => ImageStepView::Warn(line@),
        }
    }
}

/// What to do once the icon of an application was looked up.
pub open spec fn step_after_lookup(app_id: Seq<char>, path: Option<Seq<char>>) -> ImageStepView {
    match path {
        Some(p) => ImageStepView::Read(p),
        None => ImageStepView::Warn("no icon resolved for "@ + app_id),
    }
}

/// What to do once the icon of an application was looked up: read the file
/// that was found, or warn that there is none.
pub fn icon_resolved(app_id: &str, path: Option<String>) -> (r: ImageStep)
    ensures
        r@ == step_after_lookup(app_id@, opt_view(path)),
{
    match path {
        Some(p) => ImageStep::Read(p),
        None => ImageStep::Warn("no icon resolved for ".to_owned().concat(app_id)),
    }
}

/// The contents of what was read from a file, or of the message in its place.
pub open spec fn read_view(read: Result<Vec<u8>, String>) -> Result<Seq<u8>, Seq<char>> {
    match read {
        Ok(bytes) => Ok(bytes@),
        Err(message) => Err(message@),
    }
}

/// What to do once the icon file at `path` was read.
pub open spec fn step_after_reading(
    path: Seq<char>,
    read: Result<Seq<u8>, Seq<char>>,
) -> ImageStepView {
    match read {
        Ok(bytes) => ImageStepView::SetImage(
            data_uri(mime_of(extension_of(path)), base64_text(bytes)),
        ),
        Err(message) => ImageStepView::Warn("failed to read icon at "@ + path + ": "@ + message),
    }
}

/// What to do once the icon file at `path` was read: set the image, or warn
/// that the file could not be read.
pub fn icon_read(path: &str, read: Result<Vec<u8>, String>) -> (r: ImageStep)
    requires
        read matches Ok(bytes) ==> (bytes@.len() + 2) / 3 * 4 <= isize::MAX,
    ensures
        r@ == step_after_reading(path@, read_view(read)),
{
    match build_image_payload(path, read) {
        Ok(payload) => ImageStep::SetImage(payload),
        Err(IconEncodeError::Read(message)) => ImageStep::Warn(
            "failed to read icon at ".to_owned().concat(path).concat(": ").concat(
                message.as_str(),
            ),
        ),
    }
}

// ---------------------------------------------------------------------------
// The settings panel
// ---------------------------------------------------------------------------
/// What the settings panel is told of an application: the names and the values
/// of its fields.
pub open spec fn panel_fields_of(app: AppView) -> Seq<(Seq<char>, Seq<char>)> {
    seq![("id"@, app.id), ("name"@, app.name), ("path"@, app.path), ("exec"@, app.exec_line)]
}

/// The contents of a list of pairs.
pub open spec fn pair_views(list: Seq<(String, String)>) -> Seq<(Seq<char>, Seq<char>)> {
    list.map_values(|p: (String, String)| (p.0@, p.1@))
}

/// What the settings panel is told of an application: the names and the values
/// of its fields.
pub fn panel_fields(app: &AppEntry) -> (r: Vec<(String, String)>)
    ensures
        pair_views(r@) == panel_fields_of(app@),
{
    let r = vec![
        ("id".to_owned(), app.id.clone()),
        ("name".to_owned(), app.name.clone()),
        ("path".to_owned(), app.path.clone()),
        ("exec".to_owned(), app.exec_line.clone()),
    ];
    assert(pair_views(r@) =~= panel_fields_of(app@));
    r
}

/// What the settings panel is told of the installed applications: the fields
/// of each, in order.
pub fn panel_apps(apps: &[AppEntry]) -> (r: Vec<Vec<(String, String)>>)
    ensures
        r@.len() == apps@.len(),
        forall|i: int|
            0 <= i < r@.len() ==> pair_views(#[trigger] r@[i]@) == panel_fields_of(apps@[i]@),
{
    let mut r: Vec<Vec<(String, String)>> = Vec::new();
    let mut i: usize = 0;
    while i < apps.len()
        invariant
            i <= apps.len(),
            r@.len() == i,
            forall|k: int|
                0 <= k < i ==> pair_views(#[trigger] r@[k]@) == panel_fields_of(apps@[k]@),
        decreases apps.len() - i,
    {
        r.push(panel_fields(&apps[i]));
        i += 1;
    }
    r
}

// ---------------------------------------------------------------------------
// What the action amounts to
// ---------------------------------------------------------------------------
/// A key that was pressed and is released half a second later or more was held,
/// and one that is released sooner was not, whichever keys were pressed or
/// released before; neither changes which tool serves the session.
pub proof fn law_a_press_is_timed_by_its_own_key(
    action: ActionView,
    key: Seq<char>,
    other: Seq<char>,
    down: u128,
    other_down: u128,
    up: u128,
)
    requires
        key != other,
    ensures
        was_held(pressed(action, key, down).key_down_at, key, up) <==> up - down >= 500_000_000,
        was_held(
            pressed(pressed(action, key, down), other, other_down).key_down_at,
            key,
            up,
        ) <==> up - down >= 500_000_000,
        was_held(released(pressed(action, key, down), other).key_down_at, key, up) <==> up - down
            >= 500_000_000,
        !was_held(released(action, key).key_down_at, key, up),
        pressed(action, key, down).backend == action.backend,
        released(action, key).backend == action.backend,
{
}

/// Windows are closed only for a hold, and only where the key is set to do so.
pub proof fn law_only_a_hold_closes_windows(held: bool, close_all_windows_on_hold: bool)
    ensures
        goal_of_release(held, close_all_windows_on_hold) == Goal::CloseAll <==> held
            && close_all_windows_on_hold,
        goal_of_release(held, close_all_windows_on_hold) == Goal::FocusOrLaunch <==> !held
            || !close_all_windows_on_hold,
{
}

/// A key shows the name of the application that it is bound to, whatever that
/// application's id is, unless another name is set; its icon comes from the
/// application's own file, unless another icon is named.
pub proof fn law_a_key_shows_its_application(settings: SettingsView, apps: Seq<AppView>, i: int)
    requires
        0 <= i < apps.len(),
        settings.app == Some(apps[i].id),
        forall|k: int| 0 <= k < i ==> (#[trigger] apps[k]).id != apps[i].id,
    ensures
        visuals_of(settings, apps) is Some,
        visuals_of(settings, apps)->0.app_id == apps[i].id,
        settings.name_override is None || settings.name_override->0.len() == 0 ==> visuals_of(
            settings,
            apps,
        )->0.title == apps[i].name,
        settings.name_override is Some && settings.name_override->0.len() > 0 ==> visuals_of(
            settings,
            apps,
        )->0.title == settings.name_override->0,
        settings.icon_override is None || settings.icon_override->0.len() == 0 ==> visuals_of(
            settings,
            apps,
        )->0.icon == IconSourceView::FromDesktopFile(apps[i].path),
        settings.icon_override is Some && settings.icon_override->0.len() > 0 ==> visuals_of(
            settings,
            apps,
        )->0.icon == IconSourceView::Named(settings.icon_override->0),
{
    law_the_target_of_a_key(settings, apps, i);
}

/// A key that is bound to no installed application stays as it is.
pub proof fn law_a_key_without_an_application_stays(settings: SettingsView, apps: Seq<AppView>)
    requires
        settings.app is Some ==> forall|k: int|
            0 <= k < apps.len() ==> (#[trigger] apps[k]).id != settings.app->0,
    ensures
        visuals_of(settings, apps) is None,
{
    law_a_key_without_a_target(settings, apps);
}

/// An icon that was found is read from where it was found; one that was read
/// becomes an image that holds just the file's bytes, under the media type of
/// its extension; and what went wrong is told with the application or the path
/// and the message.
pub proof fn law_an_icon_becomes_the_image(
    app_id: Seq<char>,
    path: Seq<char>,
    bytes: Seq<u8>,
    message: Seq<char>,
)
    ensures
        step_after_lookup(app_id, Some(path)) == ImageStepView::Read(path),
        step_after_lookup(app_id, None) == ImageStepView::Warn("no icon resolved for "@ + app_id),
        step_after_reading(path, Err(message)) == ImageStepView::Warn(
            "failed to read icon at "@ + (path + (": "@ + message)),
        ),
        step_after_reading(path, Ok(bytes)) is SetImage,
        image_bytes(step_after_reading(path, Ok(bytes))->SetImage_0) == Some(bytes),
        ("data:"@ + mime_of(extension_of(path)) + ";"@).is_prefix_of(
            step_after_reading(path, Ok(bytes))->SetImage_0,
        ),
{
    law_an_image_holds_the_file(extension_of(path), bytes);
    assert("failed to read icon at "@ + path + ": "@ + message =~= "failed to read icon at "@ + (
    path + (": "@ + message)));
    let mime = mime_of(extension_of(path));
    let head = "data:"@ + mime + ";"@;
    reveal_strlit(";");
    reveal_strlit(";base64,");
    let uri = step_after_reading(path, Ok(bytes))->SetImage_0;
    assert(uri.take(head.len() as int) =~= head);
}

/// A session without a tool is told so: with an alert when a key is used, and
/// without one when the action is set up, each time as an error. A session with
/// a tool is told nothing.
pub proof fn law_a_missing_tool_is_told(kind: BackendKind)
    ensures
        no_backend_report().alert,
        no_backend_report().lines.len() == 1,
        no_backend_report().lines[0].level == LogLevel::Error,
        !startup_report_of(None).alert,
        startup_report_of(None).lines.len() == 1,
        startup_report_of(None).lines[0].level == LogLevel::Error,
        startup_report_of(Some(kind)).lines.len() == 0,
        !startup_report_of(Some(kind)).alert,
{
}

/// The settings panel is told each field of an application under its own name:
/// the id, the name, the path of its file and its command.
pub proof fn law_the_panel_is_told_each_field(app: AppView)
    ensures
        panel_fields_of(app).len() == 4,
        panel_fields_of(app).contains(("id"@, app.id)),
        panel_fields_of(app).contains(("name"@, app.name)),
        panel_fields_of(app).contains(("path"@, app.path)),
        panel_fields_of(app).contains(("exec"@, app.exec_line)),
{
    let fields = panel_fields_of(app);
    assert(fields[0] == ("id"@, app.id));
    assert(fields[1] == ("name"@, app.name));
    assert(fields[2] == ("path"@, app.path));
    assert(fields[3] == ("exec"@, app.exec_line));
}

/// A key that was pressed closes all windows when it is released exactly where
/// it is set to do so and half a second has passed since; its other settings do
/// not matter. A key that was not pressed, or was released since, never does.
pub proof fn law_a_release_is_for_what_its_press_was(
    action: ActionView,
    key: Seq<char>,
    settings: SettingsView,
    down: u128,
    up: u128,
)
    ensures
        goal_of_key(pressed(action, key, down), key, settings, up) == Goal::CloseAll <==> up - down
            >= 500_000_000 && settings.close_all_windows_on_hold,
        goal_of_key(released(action, key), key, settings, up) == Goal::FocusOrLaunch,
        !action.key_down_at.contains_key(key) ==> goal_of_key(action, key, settings, up)
            == Goal::FocusOrLaunch,
{
}

/// A fresh action has the tool that the session's own values select, and no key
/// is down.
pub proof fn law_a_fresh_action_has_no_key_down(
    desktop: Option<Seq<char>>,
    session_type: Option<Seq<char>>,
    display: Option<Seq<char>>,
    key: Seq<char>,
)
    ensures
        fresh_action(desktop, session_type, display).backend == selected(
            desktop,
            session_type,
            display,
        ),
        !fresh_action(desktop, session_type, display).key_down_at.contains_key(key),
{
}

} // verus!
