//! A key's settings, and what they make of the application that the key is
//! bound to.

use crate::apps::{app_views, AppEntry, AppView};
use crate::text::{opt_view, same};
use vstd::prelude::*;

verus! {

/// A key's settings.
#[derive(Debug)]
pub struct FocusOrLaunchSettings {
    /// The id of the application that the key is bound to.
    pub app: Option<String>,
    /// The class to search windows by, in place of the application's own.
    pub class_override: Option<String>,
    /// Whether a press moves on to the next window where one of several has
    /// the focus.
    pub cycle_windows: bool,
    /// Whether a press minimizes a lone window that has the focus.
    pub minimize_when_focused: bool,
    /// The key's title, in place of the application's name.
    pub name_override: Option<String>,
    /// The name of the key's icon, in place of the application's own icon.
    pub icon_override: Option<String>,
    /// The command to launch, in place of the application's own.
    pub exec_override: Option<String>,
    /// Arguments to add when launching.
    pub custom_args: Option<String>,
    /// Whether holding the key down closes all of the application's windows.
    pub close_all_windows_on_hold: bool,
}

/// The contents of [`FocusOrLaunchSettings`].
#[verifier::ext_equal]
pub struct SettingsView {
    pub app: Option<Seq<char>>,
    pub class_override: Option<Seq<char>>,
    pub cycle_windows: bool,
    pub minimize_when_focused: bool,
    pub name_override: Option<Seq<char>>,
    pub icon_override: Option<Seq<char>>,
    pub exec_override: Option<Seq<char>>,
    pub custom_args: Option<Seq<char>>,
    pub close_all_windows_on_hold: bool,
}

impl View for FocusOrLaunchSettings {
    type V = SettingsView;

    open spec fn view(&self) -> SettingsView {
        SettingsView {
            app: opt_view(self.app),
            class_override: opt_view(self.class_override),
            cycle_windows: self.cycle_windows,
            minimize_when_focused: self.minimize_when_focused,
            name_override: opt_view(self.name_override),
            icon_override: opt_view(self.icon_override),
            exec_override: opt_view(self.exec_override),
            custom_args: opt_view(self.custom_args),
            close_all_windows_on_hold: self.close_all_windows_on_hold,
        }
    }
}

/// What cycling and minimizing are set to unless the key says otherwise.
pub fn default_true() -> (r: bool)
    ensures
        r,
{
    true
}

/// The settings of a key that nobody has set.
pub open spec fn default_settings() -> SettingsView {
    SettingsView {
        app: None,
        class_override: None,
        cycle_windows: true,
        minimize_when_focused: true,
        name_override: None,
        icon_override: None,
        exec_override: None,
        custom_args: None,
        close_all_windows_on_hold: false,
    }
}

impl Default for FocusOrLaunchSettings {
    /// A key that is bound to no application, with cycling and minimizing on.
    fn default() -> (r: Self)
        ensures
            r@ == default_settings(),
    {
        FocusOrLaunchSettings {
            app: None,
            class_override: None,
            cycle_windows: default_true(),
            minimize_when_focused: default_true(),
            name_override: None,
            icon_override: None,
            exec_override: None,
            custom_args: None,
            close_all_windows_on_hold: false,
        }
    }
}

/// An override where it is set to something, else the fallback.
pub open spec fn overridden(value: Option<Seq<char>>, fallback: Seq<char>) -> Seq<char> {
    match value {
        Some(v) => if v.len() > 0 {
            v
        } else {
            fallback
        },
        None => fallback,
    }
}

/// An override where it is set to something, else the fallback: an empty
/// override, as a cleared text field leaves it, counts as not set.
pub fn resolve_override(override_value: &Option<String>, fallback: &str) -> (r: String)
    ensures
        r@ == overridden(opt_view(*override_value), fallback@),
{
    match override_value {
        Some(v) => {
            if v.as_str().is_empty() {
                fallback.to_owned()
            } else {
                v.clone()
            }
        },
        None => fallback.to_owned(),
    }
}

/// The command to launch: the override, else the application's own.
pub fn resolve_exec(settings: &FocusOrLaunchSettings, entry: &AppEntry) -> (r: String)
    ensures
        r@ == overridden(settings@.exec_override, entry@.exec_line),
{
    resolve_override(&settings.exec_override, entry.exec_line.as_str())
}

/// The key's title: the override, else the application's name.
pub fn resolve_display_name(settings: &FocusOrLaunchSettings, entry: &AppEntry) -> (r: String)
    ensures
        r@ == overridden(settings@.name_override, entry@.name),
{
    resolve_override(&settings.name_override, entry.name.as_str())
}

/// Where a key's icon comes from.
#[derive(Debug, PartialEq, Eq)]
pub enum IconSource {
    /// The icon theme, under this name.
    Named(String),
    /// The `.desktop` file at this path.
    FromDesktopFile(String),
}

/// The contents of an [`IconSource`].
#[verifier::ext_equal]
pub enum IconSourceView {
    Named(Seq<char>),
    FromDesktopFile(Seq<char>),
}

impl View for IconSource {
    type V = IconSourceView;

    open spec fn view(&self) -> IconSourceView {
        match *self {
            IconSource::Named(name) => IconSourceView::Named(name@),
            IconSource::FromDesktopFile(path) => IconSourceView::FromDesktopFile(path@),
        }
    }
}

/// Where a key's icon comes from: the icon theme where an icon is named, else
/// the application's own `.desktop` file.
pub open spec fn icon_source_of(icon_override: Option<Seq<char>>, path: Seq<char>) -> IconSourceView {
    match icon_override {
        Some(name) => if name.len() > 0 {
            IconSourceView::Named(name)
        } else {
            IconSourceView::FromDesktopFile(path)
        },
        None => IconSourceView::FromDesktopFile(path),
    }
}

/// Where the key's icon comes from.
pub fn resolve_icon_source(settings: &FocusOrLaunchSettings, entry: &AppEntry) -> (r: IconSource)
    ensures
        r@ == icon_source_of(settings@.icon_override, entry@.path),
{
    match &settings.icon_override {
        Some(name) => {
            if name.as_str().is_empty() {
                IconSource::FromDesktopFile(entry.path.clone())
            } else {
                IconSource::Named(name.clone())
            }
        },
        None => IconSource::FromDesktopFile(entry.path.clone()),
    }
}

/// The first application with this id.
pub open spec fn first_with_id(apps: Seq<AppView>, id: Seq<char>) -> Option<AppView>
    decreases apps.len(),
{
    if apps.len() == 0 {
        None
    } else if apps[0].id == id {
        Some(apps[0])
    } else {
        first_with_id(apps.drop_first(), id)
    }
}

/// The application that the key is bound to, if it is bound to one that is
/// installed.
pub open spec fn selected_app(settings: SettingsView, apps: Seq<AppView>) -> Option<AppView> {
    match settings.app {
        Some(id) => first_with_id(apps, id),
        None => None,
    }
}

/// The application that the key is bound to, if it is bound to one that is
/// installed.
pub fn find_selected<'a>(settings: &FocusOrLaunchSettings, apps: &'a [AppEntry]) -> (r: Option<
    &'a AppEntry,
>)
    ensures
        match r {
            Some(entry) => selected_app(settings@, app_views(apps@)) == Some(entry@),
            None => selected_app(settings@, app_views(apps@)) is None,
        },
{
    match &settings.app {
        None => None,
        Some(id) => {
            let ghost all = app_views(apps@);
            let mut i: usize = 0;
            assert(all.skip(0) =~= all);
            while i < apps.len()
                invariant
                    i <= apps.len(),
                    all == app_views(apps@),
                    settings@.app == Some(id@),
                    first_with_id(all, id@) == first_with_id(all.skip(i as int), id@),
                decreases apps.len() - i,
            {
                assert(all.skip(i as int)[0] == apps@[i as int]@);
                if apps[i].id == *id {
                    return Some(&apps[i]);
                }
                assert(all.skip(i as int).drop_first() =~= all.skip(i + 1));
                i += 1;
            }
            None
        },
    }
}

/// The class to search windows by and the application to launch where there
/// are none.
pub open spec fn target_of(settings: SettingsView, apps: Seq<AppView>) -> Option<
    (Seq<char>, AppView),
> {
    match selected_app(settings, apps) {
        Some(entry) => Some((overridden(settings.class_override, entry.window_class), entry)),
        None => None,
    }
}

/// The class to search windows by and the application to launch where there
/// are none, if the key is bound to an application that is installed.
pub fn resolve_target(settings: &FocusOrLaunchSettings, apps: &[AppEntry]) -> (r: Option<
    (String, AppEntry),
>)
    ensures
        match r {
            Some((class, entry)) => target_of(settings@, app_views(apps@)) == Some(
                (class@, entry@),
            ),
            None => target_of(settings@, app_views(apps@)) is None,
        },
{
    match find_selected(settings, apps) {
        Some(entry) => {
            let class = resolve_override(&settings.class_override, entry.window_class.as_str());
            Some((class, entry.clone()))
        },
        None => None,
    }
}

/// The class to search by once more where `class` matches no window: the
/// application's id, where `class` is the application's own and not its id.
pub open spec fn fallback_class(class: Seq<char>, entry: AppView) -> Option<Seq<char>> {
    if class == entry.window_class && entry.window_class != entry.id {
        Some(entry.id)
    } else {
        None
    }
}

/// The class to search by once more where `class` matches no window: the
/// application's id, where `class` is the application's own and not its id. It
/// serves applications whose windows go by their id whatever class they
/// declare.
pub fn id_fallback_class<'a>(class: &str, entry: &'a AppEntry) -> (r: Option<&'a str>)
    ensures
        crate::text::opt_str_view(r) == fallback_class(class@, entry@),
{
    if same(class, entry.window_class.as_str()) && !same(
        entry.window_class.as_str(),
        entry.id.as_str(),
    ) {
        Some(entry.id.as_str())
    } else {
        None
    }
}

/// The class to search by once more where the target's `class` matches no
/// window. A class that the user set is left at that, whichever it is.
pub open spec fn second_class(
    settings: SettingsView,
    class: Seq<char>,
    entry: AppView,
) -> Option<Seq<char>> {
    if settings.class_override is Some && settings.class_override->0.len() > 0 {
        None
    } else {
        fallback_class(class, entry)
    }
}

/// The class to search by once more where the target's `class` matches no
/// window, if there is one. A class that the user set is left at that,
/// whichever it is.
pub fn resolve_second_class<'a>(
    settings: &FocusOrLaunchSettings,
    class: &str,
    entry: &'a AppEntry,
) -> (r: Option<&'a str>)
    ensures
        crate::text::opt_str_view(r) == second_class(settings@, class@, entry@),
{
    let overrides = match &settings.class_override {
        Some(value) => !value.as_str().is_empty(),
        None => false,
    };
    if overrides {
        None
    } else {
        id_fallback_class(class, entry)
    }
}

/// An override that is not set, in the place of one that is set to nothing.
pub open spec fn cleared(value: Option<Seq<char>>) -> Option<Seq<char>> {
    if value == Some(Seq::<char>::empty()) {
        None
    } else {
        value
    }
}

/// The settings with every override that is set to nothing not set.
pub open spec fn with_cleared_overrides(settings: SettingsView) -> SettingsView {
    SettingsView {
        class_override: cleared(settings.class_override),
        name_override: cleared(settings.name_override),
        icon_override: cleared(settings.icon_override),
        exec_override: cleared(settings.exec_override),
        ..settings
    }
}

/// An override that is set to nothing is as good as none: the target, the
/// class to search by once more, the title, the icon and the command are what
/// they are without it.
pub proof fn law_an_empty_override_is_none(
    settings: SettingsView,
    apps: Seq<AppView>,
    entry: AppView,
)
    ensures
        ({
            let other = with_cleared_overrides(settings);
            &&& target_of(other, apps) == target_of(settings, apps)
            &&& forall|class: Seq<char>| #[trigger]
                second_class(other, class, entry) == second_class(settings, class, entry)
            &&& overridden(other.name_override, entry.name) == overridden(
                settings.name_override,
                entry.name,
            )
            &&& icon_source_of(other.icon_override, entry.path) == icon_source_of(
                settings.icon_override,
                entry.path,
            )
            &&& overridden(other.exec_override, entry.exec_line) == overridden(
                settings.exec_override,
                entry.exec_line,
            )
        }),
{
    assert forall|value: Option<Seq<char>>, fallback: Seq<char>|
        overridden(cleared(value), fallback) == overridden(value, fallback) by {
        if value is Some && value->0.len() == 0 {
            assert(value->0 =~= Seq::<char>::empty());
        }
    }
    let icon = settings.icon_override;
    if icon is Some && icon->0.len() == 0 {
        assert(icon->0 =~= Seq::<char>::empty());
    }
}

/// The application that a key is bound to is the one with the id in its
/// settings: it is found exactly where an installed application has that id.
pub proof fn law_the_selected_app_has_the_id(settings: SettingsView, apps: Seq<AppView>)
    ensures
        selected_app(settings, apps) is Some <==> settings.app is Some && crate::apps::has_id(
            apps,
            settings.app->0,
        ),
        selected_app(settings, apps) matches Some(entry) ==> apps.contains(entry) && entry.id
            == settings.app->0,
{
    if settings.app is Some {
        lemma_first_with_id(apps, settings.app->0);
    }
}

proof fn lemma_first_with_id(apps: Seq<AppView>, id: Seq<char>)
    ensures
        first_with_id(apps, id) is Some <==> crate::apps::has_id(apps, id),
        first_with_id(apps, id) matches Some(entry) ==> apps.contains(entry) && entry.id == id,
    decreases apps.len(),
{
    if apps.len() > 0 {
        let rest = apps.drop_first();
        lemma_first_with_id(rest, id);
        if apps[0].id != id {
            if crate::apps::has_id(apps, id) {
                let i = choose|i: int| 0 <= i < apps.len() && (#[trigger] apps[i]).id == id;
                assert(rest[i - 1].id == id);
            }
            if first_with_id(rest, id) is Some {
                let entry = first_with_id(rest, id)->0;
                let k = choose|k: int| 0 <= k < rest.len() && rest[k] == entry;
                assert(apps[k + 1] == entry);
                assert(apps[k + 1].id == id);
            }
        } else {
            assert(apps.contains(apps[0]));
        }
    }
}

/// An override that holds something wins, and one that holds nothing, or is not
/// there, leaves what is the application's own.
pub proof fn law_an_override_wins(value: Seq<char>, own: Seq<char>)
    ensures
        overridden(None, own) == own,
        value.len() == 0 ==> overridden(Some(value), own) == own,
        value.len() > 0 ==> overridden(Some(value), own) == value,
        icon_source_of(None, own) == IconSourceView::FromDesktopFile(own),
        value.len() == 0 ==> icon_source_of(Some(value), own) == IconSourceView::FromDesktopFile(
            own,
        ),
        value.len() > 0 ==> icon_source_of(Some(value), own) == IconSourceView::Named(value),
{
}

proof fn lemma_first_with_id_at(apps: Seq<AppView>, i: int)
    requires
        0 <= i < apps.len(),
        forall|k: int| 0 <= k < i ==> (#[trigger] apps[k]).id != apps[i].id,
    ensures
        first_with_id(apps, apps[i].id) == Some(apps[i]),
    decreases i,
{
    if i > 0 {
        let rest = apps.drop_first();
        assert(apps[0].id != apps[i].id);
        assert forall|k: int| 0 <= k < i - 1 implies (#[trigger] rest[k]).id != rest[i - 1].id by {
            assert(rest[k] == apps[k + 1]);
        }
        lemma_first_with_id_at(rest, i - 1);
    }
}

proof fn lemma_no_one_with_id(apps: Seq<AppView>, id: Seq<char>)
    requires
        forall|k: int| 0 <= k < apps.len() ==> (#[trigger] apps[k]).id != id,
    ensures
        first_with_id(apps, id) is None,
    decreases apps.len(),
{
    if apps.len() > 0 {
        let rest = apps.drop_first();
        assert(apps[0].id != id);
        assert forall|k: int| 0 <= k < rest.len() implies (#[trigger] rest[k]).id != id by {
            assert(rest[k] == apps[k + 1]);
        }
        lemma_no_one_with_id(rest, id);
    }
}

/// A key is for the first installed application with the id in its settings:
/// its windows are searched by the class that the user set, else by the
/// application's own, and where that finds none by its id, unless the user set
/// the class or the two are the same.
pub proof fn law_the_target_of_a_key(settings: SettingsView, apps: Seq<AppView>, i: int)
    requires
        0 <= i < apps.len(),
        settings.app == Some(apps[i].id),
        forall|k: int| 0 <= k < i ==> (#[trigger] apps[k]).id != apps[i].id,
    ensures
        selected_app(settings, apps) == Some(apps[i]),
        match settings.class_override {
            Some(class) => if class.len() > 0 {
                &&& target_of(settings, apps) == Some((class, apps[i]))
                &&& second_class(settings, class, apps[i]) is None
            } else {
                target_of(settings, apps) == Some((apps[i].window_class, apps[i]))
            },
            None => target_of(settings, apps) == Some((apps[i].window_class, apps[i])),
        },
        (settings.class_override is None || settings.class_override->0.len() == 0)
            && apps[i].window_class != apps[i].id ==> second_class(
            settings,
            apps[i].window_class,
            apps[i],
        ) == Some(apps[i].id),
        apps[i].window_class == apps[i].id ==> second_class(
            settings,
            apps[i].window_class,
            apps[i],
        ) is None,
{
    lemma_first_with_id_at(apps, i);
}

/// A key without an application, or with one that is not installed, is for
/// nothing.
pub proof fn law_a_key_without_a_target(settings: SettingsView, apps: Seq<AppView>)
    requires
        settings.app is Some ==> forall|k: int|
            0 <= k < apps.len() ==> (#[trigger] apps[k]).id != settings.app->0,
    ensures
        selected_app(settings, apps) is None,
        target_of(settings, apps) is None,
{
    if settings.app is Some {
        lemma_no_one_with_id(apps, settings.app->0);
    }
}

/// A key that nobody has set is bound to nothing, overrides nothing and adds
/// nothing, cycles and minimizes, and closes nothing.
pub proof fn law_a_key_that_nobody_has_set(apps: Seq<AppView>, own: Seq<char>)
    ensures
        target_of(default_settings(), apps) is None,
        overridden(default_settings().class_override, own) == own,
        overridden(default_settings().name_override, own) == own,
        overridden(default_settings().exec_override, own) == own,
        icon_source_of(default_settings().icon_override, own) == IconSourceView::FromDesktopFile(
            own,
        ),
        default_settings().custom_args is None,
        default_settings().cycle_windows,
        default_settings().minimize_when_focused,
        !default_settings().close_all_windows_on_hold,
{
}

/// The id is worth a second search exactly where the class is the application's
/// own and another than the id.
pub proof fn law_when_the_id_is_worth_a_search(class: Seq<char>, entry: AppView)
    ensures
        class == entry.window_class && class != entry.id ==> fallback_class(class, entry) == Some(
            entry.id,
        ),
        class != entry.window_class || class == entry.id ==> fallback_class(class, entry) is None,
{
}

} // verus!
