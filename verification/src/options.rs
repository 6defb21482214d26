//! The options that the server gives itself when it starts.
use vstd::prelude::*;

use crate::text::texts;

verus! {

/// The options that the server reads or sets.
#[derive(Clone, Copy, PartialEq, Eq, Structural)]
pub enum OptionKey {
    CustomRendezvousServer,
    ApiServer,
    RelayServer,
    Key,
    DirectServer,
    AllowRemoteConfigModification,
    AllowLinuxHeadless,
    RegisterDevice,
    VerificationMethod,
}

/// An option and the value that it is to have.
pub struct Setting {
    pub key: OptionKey,
    pub value: String,
}

impl View for Setting {
    type V = (OptionKey, Seq<char>);

    open spec fn view(&self) -> (OptionKey, Seq<char>) {
        (self.key, self.value@)
    }
}

/// The servers that the server is built for.
pub struct ServerSites {
    pub id_server: String,
    pub relay_server: String,
    pub server_key: String,
}

/// The options whose change asks for a new connection to the rendezvous server.
pub open spec fn watched() -> Seq<OptionKey> {
    seq![
        OptionKey::CustomRendezvousServer,
        OptionKey::ApiServer,
        OptionKey::RelayServer,
        OptionKey::Key,
        OptionKey::DirectServer,
        OptionKey::AllowRemoteConfigModification,
        OptionKey::AllowLinuxHeadless,
    ]
}

/// The options that are on unless a default says otherwise.
pub open spec fn on_by_default() -> Seq<OptionKey> {
    seq![
        OptionKey::DirectServer,
        OptionKey::AllowRemoteConfigModification,
        OptionKey::AllowLinuxHeadless,
    ]
}

/// What the options are set to at the start, in this order.
pub open spec fn startup_values(sites: ServerSites) -> Seq<(OptionKey, Seq<char>)> {
    seq![
        (OptionKey::CustomRendezvousServer, sites.id_server@),
        (OptionKey::ApiServer, ""@),
        (OptionKey::RelayServer, sites.relay_server@),
        (OptionKey::Key, sites.server_key@),
        (OptionKey::DirectServer, "Y"@),
        (OptionKey::AllowRemoteConfigModification, "Y"@),
        (OptionKey::AllowLinuxHeadless, "Y"@),
    ]
}

/// The settings that switch these options on.
pub open spec fn switched_on(keys: Seq<OptionKey>) -> Seq<(OptionKey, Seq<char>)> {
    keys.map_values(|key: OptionKey| (key, "Y"@))
}

/// The defaults that are added where these are present: for each option that is on by
/// default and has none yet.
pub open spec fn added_defaults(present: Seq<OptionKey>) -> Seq<(OptionKey, Seq<char>)> {
    switched_on(on_by_default().filter(|key: OptionKey| !present.contains(key)))
}

/// The options whose change asks for a new connection to the rendezvous server.
pub fn watched_options() -> (keys: Vec<OptionKey>)
    ensures
        keys@ == watched(),
        keys@ == seq![
            OptionKey::CustomRendezvousServer,
            OptionKey::ApiServer,
            OptionKey::RelayServer,
            OptionKey::Key,
            OptionKey::DirectServer,
            OptionKey::AllowRemoteConfigModification,
            OptionKey::AllowLinuxHeadless,
        ],
{
    vec![
        OptionKey::CustomRendezvousServer,
        OptionKey::ApiServer,
        OptionKey::RelayServer,
        OptionKey::Key,
        OptionKey::DirectServer,
        OptionKey::AllowRemoteConfigModification,
        OptionKey::AllowLinuxHeadless,
    ]
}

fn is_among(key: OptionKey, keys: &Vec<OptionKey>) -> (found: bool)
    ensures
        found == keys@.contains(key),
{
    for i in 0..keys.len()
        invariant
            forall|j: int| 0 <= j < i ==> keys@[j] != key,
    {
        if keys[i] == key {
            assert(keys@[i as int] == key);
            return true;
        }
    }
    false
}

/// The setting by which only the permanent password opens a connection.
pub fn verification_setting() -> (setting: Setting)
    ensures
        setting@ == (OptionKey::VerificationMethod, "use-permanent-password"@),
        setting.key == OptionKey::VerificationMethod,
        setting.value@ == "use-permanent-password"@,
{
    Setting { key: OptionKey::VerificationMethod, value: "use-permanent-password".to_owned() }
}

/// A change of the configuration.
pub enum ConfigAction {
    /// Give an option this default.
    AddDefault(Setting),
    /// Build this setting in.
    SetBuiltin(Setting),
    /// Set an option.
    SetOption(Setting),
}

/// The model of `ConfigAction`.
pub enum ConfigActionView {
    AddDefault(OptionKey, Seq<char>),
    SetBuiltin(OptionKey, Seq<char>),
    SetOption(OptionKey, Seq<char>),
}

impl View for ConfigAction {
    type V = ConfigActionView;

    open spec fn view(&self) -> ConfigActionView {
        match self {
            ConfigAction::AddDefault(setting) => ConfigActionView::AddDefault(
                setting@.0,
                setting@.1,
            ),
            ConfigAction::SetBuiltin(setting) => ConfigActionView::SetBuiltin(
                setting@.0,
                setting@.1,
            ),
            ConfigAction::SetOption(setting) => ConfigActionView::SetOption(setting@.0, setting@.1),
        }
    }
}

/// The views of a sequence of changes.
pub open spec fn actions_view(actions: Seq<ConfigAction>) -> Seq<ConfigActionView> {
    actions.map_values(|action: ConfigAction| action@)
}

/// The changes that give these defaults.
pub open spec fn adding(settings: Seq<(OptionKey, Seq<char>)>) -> Seq<ConfigActionView> {
    settings.map_values(
        |setting: (OptionKey, Seq<char>)| ConfigActionView::AddDefault(setting.0, setting.1),
    )
}

/// The changes that set these options.
pub open spec fn setting_all(settings: Seq<(OptionKey, Seq<char>)>) -> Seq<ConfigActionView> {
    settings.map_values(
        |setting: (OptionKey, Seq<char>)| ConfigActionView::SetOption(setting.0, setting.1),
    )
}

/// The changes that the server makes when it starts, in this order: the defaults that are
/// missing beside those present, that the device is not registered, and the options.
pub open spec fn startup_changes(sites: ServerSites, present: Seq<OptionKey>) -> Seq<
    ConfigActionView,
> {
    adding(added_defaults(present)).push(
        ConfigActionView::SetBuiltin(OptionKey::RegisterDevice, "N"@),
    ) + setting_all(startup_values(sites))
}

fn default_changes(present: &Vec<OptionKey>) -> (changes: Vec<ConfigAction>)
    ensures
        actions_view(changes@) == adding(added_defaults(present@)),
{
    let keys: Vec<OptionKey> = vec![
        OptionKey::DirectServer,
        OptionKey::AllowRemoteConfigModification,
        OptionKey::AllowLinuxHeadless,
    ];
    assert(keys@ == on_by_default());
    let ghost missing = |key: OptionKey| !present@.contains(key);
    let mut changes: Vec<ConfigAction> = Vec::new();
    proof {
        reveal(Seq::filter);
    }
    assert(actions_view(changes@) == adding(switched_on(keys@.take(0).filter(missing))));
    for i in 0..keys.len()
        invariant
            missing == (|key: OptionKey| !present@.contains(key)),
            actions_view(changes@) == adding(switched_on(keys@.take(i as int).filter(missing))),
    {
        proof {
            reveal(Seq::filter);
        }
        let key: OptionKey = keys[i];
        assert(keys@.take(i + 1).drop_last() == keys@.take(i as int));
        assert(keys@.take(i + 1).last() == key);
        if !is_among(key, present) {
            let ghost earlier = actions_view(changes@);
            let ghost before = keys@.take(i as int).filter(missing);
            let change: ConfigAction = ConfigAction::AddDefault(
                Setting { key, value: "Y".to_owned() },
            );
            changes.push(change);
            assert(keys@.take(i + 1).filter(missing) == before.push(key));
            assert(actions_view(changes@) == earlier.push(change@));
            assert(adding(switched_on(before.push(key))) == adding(switched_on(before)).push(
                ConfigActionView::AddDefault(key, "Y"@),
            ));
        }
    }
    assert(keys@.take(keys@.len() as int) == keys@);
    changes
}

fn option_changes(sites: ServerSites) -> (changes: Vec<ConfigAction>)
    ensures
        actions_view(changes@) == setting_all(startup_values(sites)),
{
    let changes: Vec<ConfigAction> = vec![
        ConfigAction::SetOption(
            Setting { key: OptionKey::CustomRendezvousServer, value: sites.id_server },
        ),
        ConfigAction::SetOption(Setting { key: OptionKey::ApiServer, value: "".to_owned() }),
        ConfigAction::SetOption(
            Setting { key: OptionKey::RelayServer, value: sites.relay_server },
        ),
        ConfigAction::SetOption(Setting { key: OptionKey::Key, value: sites.server_key }),
        ConfigAction::SetOption(Setting { key: OptionKey::DirectServer, value: "Y".to_owned() }),
        ConfigAction::SetOption(
            Setting { key: OptionKey::AllowRemoteConfigModification, value: "Y".to_owned() },
        ),
        ConfigAction::SetOption(
            Setting { key: OptionKey::AllowLinuxHeadless, value: "Y".to_owned() },
        ),
    ];
    assert(actions_view(changes@) == setting_all(startup_values(sites)));
    changes
}

/// The changes that the server makes when it starts, in this order, where these options have
/// a default already.
pub fn apply_startup_config(sites: ServerSites, present: &Vec<OptionKey>) -> (changes: Vec<
    ConfigAction,
>)
    ensures
        actions_view(changes@) == startup_changes(sites, present@),
        actions_view(changes@) == (if present@.contains(OptionKey::DirectServer) {
            seq![]
        } else {
            seq![ConfigActionView::AddDefault(OptionKey::DirectServer, "Y"@)]
        }) + (if present@.contains(OptionKey::AllowRemoteConfigModification) {
            seq![]
        } else {
            seq![ConfigActionView::AddDefault(OptionKey::AllowRemoteConfigModification, "Y"@)]
        }) + (if present@.contains(OptionKey::AllowLinuxHeadless) {
            seq![]
        } else {
            seq![ConfigActionView::AddDefault(OptionKey::AllowLinuxHeadless, "Y"@)]
        }) + seq![
            ConfigActionView::SetBuiltin(OptionKey::RegisterDevice, "N"@),
            ConfigActionView::SetOption(OptionKey::CustomRendezvousServer, sites.id_server@),
            ConfigActionView::SetOption(OptionKey::ApiServer, ""@),
            ConfigActionView::SetOption(OptionKey::RelayServer, sites.relay_server@),
            ConfigActionView::SetOption(OptionKey::Key, sites.server_key@),
            ConfigActionView::SetOption(OptionKey::DirectServer, "Y"@),
            ConfigActionView::SetOption(OptionKey::AllowRemoteConfigModification, "Y"@),
            ConfigActionView::SetOption(OptionKey::AllowLinuxHeadless, "Y"@),
        ],
{
    proof {
        lemma_startup_changes_in_order(sites, present@);
    }
    let mut changes: Vec<ConfigAction> = default_changes(present);
    changes.push(
        ConfigAction::SetBuiltin(
            Setting { key: OptionKey::RegisterDevice, value: "N".to_owned() },
        ),
    );
    let mut options: Vec<ConfigAction> = option_changes(sites);
    changes.append(&mut options);
    assert(actions_view(changes@) == startup_changes(sites, present@));
    changes
}

/// Whether the watched options, read before and after, have changed.
pub fn restart_needed(before: &Vec<String>, after: &Vec<String>) -> (needed: bool)
    ensures
        needed == (texts(before@) != texts(after@)),
        needed <==> before@.len() != after@.len() || exists|i: int|
            0 <= i < before@.len() && #[trigger] before@[i]@ != after@[i]@,
{
    if before.len() != after.len() {
        assert(texts(before@).len() != texts(after@).len());
        return true;
    }
    for i in 0..before.len()
        invariant
            before@.len() == after@.len(),
            forall|j: int| 0 <= j < i ==> before@[j]@ == after@[j]@,
    {
        if before[i] != after[i] {
            assert(texts(before@)[i as int] != texts(after@)[i as int]);
            return true;
        }
    }
    assert(texts(before@) == texts(after@));
    false
}

/// The options after these settings were made, one after the other.
pub open spec fn stored(
    options: Map<OptionKey, Seq<char>>,
    settings: Seq<(OptionKey, Seq<char>)>,
) -> Map<OptionKey, Seq<char>>
    decreases settings.len(),
{
    if settings.len() == 0 {
        options
    } else {
        stored(options, settings.drop_last()).insert(settings.last().0, settings.last().1)
    }
}

/// A configuration: the defaults, the built-in settings and the options.
#[verifier::ext_equal]
pub struct Configuration {
    pub defaults: Map<OptionKey, Seq<char>>,
    pub builtin: Map<OptionKey, Seq<char>>,
    pub options: Map<OptionKey, Seq<char>>,
}

/// The configuration after these changes, one after the other.
pub open spec fn changed(
    configuration: Configuration,
    changes: Seq<ConfigActionView>,
) -> Configuration
    decreases changes.len(),
{
    if changes.len() == 0 {
        configuration
    } else {
        let before = changed(configuration, changes.drop_last());
        match changes.last() {
            ConfigActionView::AddDefault(key, value) => Configuration {
                defaults: before.defaults.insert(key, value),
                ..before
            },
            ConfigActionView::SetBuiltin(key, value) => Configuration {
                builtin: before.builtin.insert(key, value),
                ..before
            },
            ConfigActionView::SetOption(key, value) => Configuration {
                options: before.options.insert(key, value),
                ..before
            },
        }
    }
}

/// The changes at the start give the missing defaults, build in that the device is not
/// registered, set the options to the startup values, and do nothing else.
pub proof fn lemma_startup_changes(
    configuration: Configuration,
    sites: ServerSites,
    present: Seq<OptionKey>,
)
    ensures
        changed(configuration, startup_changes(sites, present)) == (Configuration {
            defaults: stored(configuration.defaults, added_defaults(present)),
            builtin: configuration.builtin.insert(OptionKey::RegisterDevice, "N"@),
            options: stored(configuration.options, startup_values(sites)),
        }),
{
    let first = adding(added_defaults(present));
    let head = first.push(ConfigActionView::SetBuiltin(OptionKey::RegisterDevice, "N"@));
    lemma_changed_defaults(configuration, added_defaults(present));
    assert(head.drop_last() == first);
    lemma_changed_options(configuration, head, startup_values(sites));
}

proof fn lemma_changed_defaults(
    configuration: Configuration,
    settings: Seq<(OptionKey, Seq<char>)>,
)
    ensures
        changed(configuration, adding(settings)) == (Configuration {
            defaults: stored(configuration.defaults, settings),
            ..configuration
        }),
    decreases settings.len(),
{
    if settings.len() > 0 {
        lemma_changed_defaults(configuration, settings.drop_last());
        assert(adding(settings).drop_last() == adding(settings.drop_last()));
    }
}

proof fn lemma_changed_options(
    configuration: Configuration,
    head: Seq<ConfigActionView>,
    settings: Seq<(OptionKey, Seq<char>)>,
)
    ensures
        changed(configuration, head + setting_all(settings)) == (Configuration {
            options: stored(changed(configuration, head).options, settings),
            ..changed(configuration, head)
        }),
    decreases settings.len(),
{
    let all = head + setting_all(settings);
    if settings.len() > 0 {
        lemma_changed_options(configuration, head, settings.drop_last());
        assert(all.drop_last() == head + setting_all(settings.drop_last()));
    } else {
        assert(all == head);
    }
}

/// The watched options are those that are set at the start; afterwards they have the startup
/// values, whatever they had before, and no other option has changed.
pub proof fn lemma_startup_sets_watched_options(
    options: Map<OptionKey, Seq<char>>,
    sites: ServerSites,
)
    ensures
        startup_values(sites).map_values(|setting: (OptionKey, Seq<char>)| setting.0) == watched(),
        forall|i: int|
            0 <= i < startup_values(sites).len() ==> {
                let (key, value) = #[trigger] startup_values(sites)[i];
                &&& stored(options, startup_values(sites)).contains_key(key)
                &&& stored(options, startup_values(sites))[key] == value
            },
        forall|key: OptionKey|
            !watched().contains(key) ==> (#[trigger] stored(
                options,
                startup_values(sites),
            ).contains_key(key) <==> options.contains_key(key)) && stored(
                options,
                startup_values(sites),
            )[key] == options[key],
{
    lemma_stored_startup(options, sites);
    let values = startup_values(sites);
    assert forall|key: OptionKey| !watched().contains(key) implies (#[trigger] stored(
        options,
        values,
    ).contains_key(key) <==> options.contains_key(key)) && stored(options, values)[key]
        == options[key] by {
        assert(forall|i: int| 0 <= i < 7 ==> #[trigger] watched()[i] != key);
        assert(watched()[0] != key && watched()[1] != key && watched()[2] != key && watched()[3]
            != key && watched()[4] != key && watched()[5] != key && watched()[6] != key);
    }
    assert(values.map_values(|setting: (OptionKey, Seq<char>)| setting.0) == watched());
}

/// The options are the same after they were set to the startup values a second time.
proof fn lemma_second_startup_keeps_options(
    options: Map<OptionKey, Seq<char>>,
    sites: ServerSites,
)
    ensures
        ({
            let once = stored(options, startup_values(sites));
            let twice = stored(once, startup_values(sites));
            twice == once
        }),
{
    let once = stored(options, startup_values(sites));
    lemma_stored_startup(options, sites);
    lemma_stored_startup(once, sites);
    assert(stored(once, startup_values(sites)) =~= once);
}

/// After the start each of the options has the value of its server, or is on, or is empty, and
/// every other option is as it was.
pub proof fn lemma_stored_startup(options: Map<OptionKey, Seq<char>>, sites: ServerSites)
    ensures
        stored(options, startup_values(sites)) == options.insert(
            OptionKey::CustomRendezvousServer,
            sites.id_server@,
        ).insert(OptionKey::ApiServer, ""@).insert(
            OptionKey::RelayServer,
            sites.relay_server@,
        ).insert(OptionKey::Key, sites.server_key@).insert(OptionKey::DirectServer, "Y"@).insert(
            OptionKey::AllowRemoteConfigModification,
            "Y"@,
        ).insert(OptionKey::AllowLinuxHeadless, "Y"@),
{
    let v = startup_values(sites);
    assert(v.drop_last() == v.take(6));
    assert(v.take(6).drop_last() == v.take(5));
    assert(v.take(5).drop_last() == v.take(4));
    assert(v.take(4).drop_last() == v.take(3));
    assert(v.take(3).drop_last() == v.take(2));
    assert(v.take(2).drop_last() == v.take(1));
    assert(v.take(1).drop_last() == v.take(0));
    reveal_with_fuel(stored, 8);
}

/// Whether, of the options that are on by default, `present` holds just those that have a
/// default.
pub open spec fn tells_defaults(
    present: Seq<OptionKey>,
    defaults: Map<OptionKey, Seq<char>>,
) -> bool {
    forall|key: OptionKey|
        on_by_default().contains(key) ==> (#[trigger] present.contains(key)
            <==> defaults.contains_key(key))
}

/// A second start with the same servers changes nothing in the configuration: no default, no
/// built-in setting and no option.
pub proof fn lemma_second_startup_changes_nothing(
    configuration: Configuration,
    sites: ServerSites,
    present: Seq<OptionKey>,
    again: Seq<OptionKey>,
)
    requires
        tells_defaults(present, configuration.defaults),
        tells_defaults(
            again,
            changed(configuration, startup_changes(sites, present)).defaults,
        ),
    ensures
        ({
            let once = changed(configuration, startup_changes(sites, present));
            changed(once, startup_changes(sites, again)) == once
        }),
{
    let once = changed(configuration, startup_changes(sites, present));
    lemma_startup_changes(configuration, sites, present);
    lemma_startup_changes(once, sites, again);
    lemma_defaults_are_kept(configuration.defaults, present);
    lemma_second_startup_keeps_options(configuration.options, sites);
    let missing = |key: OptionKey| !again.contains(key);
    assert(on_by_default().filter(missing).len() == 0) by {
        lemma_nothing_kept(on_by_default(), missing);
    }
    assert(added_defaults(again).len() == 0);
    assert(changed(once, startup_changes(sites, again)) =~= once);
}

/// A second start with the same servers asks for no new connection: whatever is read of the
/// configuration, as long as it rests on that alone, is the same before and after it.
pub proof fn lemma_second_startup_asks_for_no_restart(
    configuration: Configuration,
    sites: ServerSites,
    present: Seq<OptionKey>,
    again: Seq<OptionKey>,
    read: spec_fn(Configuration) -> Seq<Seq<char>>,
)
    requires
        tells_defaults(present, configuration.defaults),
        tells_defaults(
            again,
            changed(configuration, startup_changes(sites, present)).defaults,
        ),
    ensures
        ({
            let once = changed(configuration, startup_changes(sites, present));
            read(changed(once, startup_changes(sites, again))) == read(once)
        }),
{
    lemma_second_startup_changes_nothing(configuration, sites, present, again);
}

proof fn lemma_nothing_kept(keys: Seq<OptionKey>, wanted: spec_fn(OptionKey) -> bool)
    requires
        forall|key: OptionKey| #[trigger] keys.contains(key) ==> !wanted(key),
    ensures
        keys.filter(wanted).len() == 0,
    decreases keys.len(),
{
    reveal(Seq::filter);
    if keys.len() > 0 {
        let front = keys.drop_last();
        assert forall|key: OptionKey| #[trigger] front.contains(key) implies !wanted(key) by {
            let i = choose|i: int| 0 <= i < front.len() && front[i] == key;
            assert(keys[i] == key);
            assert(keys.contains(key));
        }
        lemma_nothing_kept(front, wanted);
        assert(keys[keys.len() - 1] == keys.last());
        assert(keys.contains(keys.last()));
    }
}

/// Adding the missing defaults never replaces one: each option that had a default keeps it,
/// and each that is on by default has one afterwards.
pub proof fn lemma_defaults_are_kept(defaults: Map<OptionKey, Seq<char>>, present: Seq<OptionKey>)
    requires
        tells_defaults(present, defaults),
    ensures
        ({
            let filled = stored(defaults, added_defaults(present));
            &&& forall|key: OptionKey| #[trigger]
                defaults.contains_key(key) ==> filled.contains_key(key) && filled[key]
                    == defaults[key]
            &&& forall|key: OptionKey| #[trigger]
                on_by_default().contains(key) ==> filled.contains_key(key)
            &&& forall|key: OptionKey| #[trigger]
                filled.contains_key(key) && !defaults.contains_key(key)
                    ==> on_by_default().contains(key) && filled[key] == "Y"@
        }),
{
    let wanted = |key: OptionKey| !present.contains(key);
    lemma_stored_defaults(defaults, on_by_default(), wanted);
    let filled = stored(defaults, added_defaults(present));
    assert forall|key: OptionKey| #[trigger] defaults.contains_key(key) implies filled.contains_key(
        key,
    ) && filled[key] == defaults[key] by {
        assert(on_by_default().contains(key) ==> !wanted(key));
    }
}

proof fn lemma_stored_defaults(
    defaults: Map<OptionKey, Seq<char>>,
    keys: Seq<OptionKey>,
    wanted: spec_fn(OptionKey) -> bool,
)
    ensures
        ({
            let filled = stored(defaults, switched_on(keys.filter(wanted)));
            &&& forall|key: OptionKey| #[trigger]
                filled.contains_key(key) <==> defaults.contains_key(key) || (keys.contains(key)
                    && wanted(key))
            &&& forall|key: OptionKey| #[trigger]
                filled.contains_key(key) ==> filled[key] == if keys.contains(key) && wanted(key) {
                    "Y"@
                } else {
                    defaults[key]
                }
        }),
    decreases keys.len(),
{
    reveal(Seq::filter);
    if keys.len() == 0 {
        assert(switched_on(keys.filter(wanted)).len() == 0);
    } else {
        let front = keys.drop_last();
        let last = keys.last();
        lemma_stored_defaults(defaults, front, wanted);
        assert(forall|key: OptionKey|
            keys.contains(key) <==> #[trigger] front.contains(key) || key == last) by {
            assert(keys == front.push(last));
            assert forall|key: OptionKey| keys.contains(key) <==> #[trigger] front.contains(key)
                || key == last by {
                if front.contains(key) {
                    let i = choose|i: int| 0 <= i < front.len() && front[i] == key;
                    assert(keys[i] == key);
                }
                if key == last {
                    assert(keys[keys.len() - 1] == key);
                }
            }
        }
        let before = stored(defaults, switched_on(front.filter(wanted)));
        let filled = stored(defaults, switched_on(keys.filter(wanted)));
        if wanted(last) {
            let added = switched_on(keys.filter(wanted));
            assert(keys.filter(wanted) == front.filter(wanted).push(last));
            assert(added.drop_last() == switched_on(front.filter(wanted)));
            assert(added.last() == (last, "Y"@));
            assert(filled == before.insert(last, "Y"@));
        } else {
            assert(filled == before);
        }
    }
}

/// The changes at the start, one by one: a default for each of the three options that are on
/// and have none, then that the device is not registered, then the seven options, three of which
/// take the text of a server as it is.
pub proof fn lemma_startup_changes_in_order(sites: ServerSites, present: Seq<OptionKey>)
    ensures
        startup_changes(sites, present) == (if present.contains(OptionKey::DirectServer) {
            seq![]
        } else {
            seq![ConfigActionView::AddDefault(OptionKey::DirectServer, "Y"@)]
        }) + (if present.contains(OptionKey::AllowRemoteConfigModification) {
            seq![]
        } else {
            seq![ConfigActionView::AddDefault(OptionKey::AllowRemoteConfigModification, "Y"@)]
        }) + (if present.contains(OptionKey::AllowLinuxHeadless) {
            seq![]
        } else {
            seq![ConfigActionView::AddDefault(OptionKey::AllowLinuxHeadless, "Y"@)]
        }) + seq![
            ConfigActionView::SetBuiltin(OptionKey::RegisterDevice, "N"@),
            ConfigActionView::SetOption(OptionKey::CustomRendezvousServer, sites.id_server@),
            ConfigActionView::SetOption(OptionKey::ApiServer, ""@),
            ConfigActionView::SetOption(OptionKey::RelayServer, sites.relay_server@),
            ConfigActionView::SetOption(OptionKey::Key, sites.server_key@),
            ConfigActionView::SetOption(OptionKey::DirectServer, "Y"@),
            ConfigActionView::SetOption(OptionKey::AllowRemoteConfigModification, "Y"@),
            ConfigActionView::SetOption(OptionKey::AllowLinuxHeadless, "Y"@),
        ],
{
    let missing = |key: OptionKey| !present.contains(key);
    let three = on_by_default();
    let two = seq![OptionKey::DirectServer, OptionKey::AllowRemoteConfigModification];
    let one = seq![OptionKey::DirectServer];
    assert(three.drop_last() == two);
    assert(two.drop_last() == one);
    assert(one.drop_last() == Seq::<OptionKey>::empty());
    reveal_with_fuel(Seq::filter, 4);
    let kept = three.filter(missing);
    assert(kept == (if missing(OptionKey::DirectServer) {
        seq![OptionKey::DirectServer]
    } else {
        seq![]
    }) + (if missing(OptionKey::AllowRemoteConfigModification) {
        seq![OptionKey::AllowRemoteConfigModification]
    } else {
        seq![]
    }) + (if missing(OptionKey::AllowLinuxHeadless) {
        seq![OptionKey::AllowLinuxHeadless]
    } else {
        seq![]
    }));
    let added = adding(switched_on(kept));
    assert(added.len() == kept.len());
    assert(forall|i: int|
        0 <= i < kept.len() ==> #[trigger] added[i] == ConfigActionView::AddDefault(kept[i], "Y"@));
}

/// The model of a sequence of changes has the option and the value of each, in the same order.
pub proof fn lemma_changes_are_told_apart(changes: Seq<ConfigAction>, at: int)
    requires
        0 <= at < changes.len(),
    ensures
        actions_view(changes).len() == changes.len(),
        match changes[at] {
            ConfigAction::AddDefault(setting) => actions_view(changes)[at]
                == ConfigActionView::AddDefault(setting.key, setting.value@),
            ConfigAction::SetBuiltin(setting) => actions_view(changes)[at]
                == ConfigActionView::SetBuiltin(setting.key, setting.value@),
            ConfigAction::SetOption(setting) => actions_view(changes)[at]
                == ConfigActionView::SetOption(setting.key, setting.value@),
        },
{
}

}
