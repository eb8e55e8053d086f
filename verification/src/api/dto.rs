//! The values that the server sends, and how each is read from JSON.

use vstd::prelude::*;

use crate::api::field::{
    bool_field, bool_or_false_field, count_field, decoded, id_field,
    int_field, maybe_bool_field, maybe_text_field, number_field, read_bool, read_bool_or_false,
    read_count, read_id, read_int, read_maybe_bool, read_maybe_json, read_maybe_text,
    read_number, read_text, read_text_or_empty, read_texts_or_empty, text_field,
    text_or_empty_field, texts_or_empty_field,
};
use crate::json::{read_json, parsed_json, Json, JsonNumber, JsonNumberView, JsonView};
use crate::keyed::KeyedMap;
use crate::text::{copy_option, option_str_view, option_view, same_text, views};

verus! {

/// A value as an object. A record may also be written as a list, its fields one after
/// the other under no names; the last ones may be left out where they need not be there.
pub open spec fn by_name(j: JsonView, names: Seq<Seq<char>>, least: int) -> JsonView {
    match j {
        JsonView::Array(items) => if least <= items.len() <= names.len() {
            JsonView::Object(Seq::new(items.len(), |i: int| (names[i], items[i])))
        } else {
            j
        },
        _ => j,
    }
}

/// The object that a list stands for, where it does.
pub fn name_items(j: &Json, names: &Vec<&str>, least: usize) -> (out: Option<Json>)
    ensures
        by_name(j@, views(names@), least as int) == match out {
            Some(named) => named@,
            None => j@,
        },
{
    let items = match j {
        Json::Array(items) => items,
        _ => return None,
    };
    assert(j@->Array_0 =~= views(items@));
    assert(views(names@).len() == names@.len());
    if items.len() < least || items.len() > names.len() {
        return None;
    }
    let mut members: Vec<(String, Json)> = Vec::new();
    let mut i: usize = 0;
    while i < items.len()
        invariant
            i <= items.len() <= names.len(),
            members.len() == i,
            forall|k: int|
                0 <= k < i ==> (#[trigger] members@[k]).0@ == names@[k]@ && members@[k].1@
                    == items@[k]@,
        decreases items.len() - i,
    {
        members.push((names[i].to_owned(), items[i].copy()));
        i = i + 1;
    }
    let named = Json::Object(members);
    assert(named@->Object_0 =~= by_name(j@, views(names@), least as int)->Object_0);
    Some(named)
}

/// A value that is read from JSON.
pub trait Wire: View + Sized {
    /// What a JSON value stands for, or the name of the field that does not fit.
    spec fn wire(j: JsonView) -> Result<Self::V, Seq<char>>;

    fn from_json(j: &Json) -> (out: Result<Self, String>)
        ensures
            decoded(out) == Self::wire(j@),
    ;
}

/// A value that stands in where the field is absent.
pub trait WireDefault: Wire {
    spec fn absent() -> Self::V;

    fn when_absent() -> (out: Self)
        ensures
            out@ == Self::absent(),
    ;
}

pub open spec fn json_option_view(j: Option<Json>) -> Option<JsonView> {
    match j {
        Some(v) => Some(v@),
        None => None,
    }
}

pub open spec fn wire_field<T: Wire>(j: JsonView, key: Seq<char>) -> Result<T::V, Seq<char>> {
    match j.get(key) {
        Some(v) => T::wire(v),
        None => Err(key),
    }
}

pub fn read_wire<T: Wire>(j: &Json, key: &str) -> (out: Result<T, String>)
    ensures
        decoded(out) == wire_field::<T>(j@, key@),
{
    match j.get(key) {
        Some(v) => T::from_json(v),
        None => Err(key.to_owned()),
    }
}

pub open spec fn wire_or_default_field<T: WireDefault>(j: JsonView, key: Seq<char>) -> Result<
    T::V,
    Seq<char>,
> {
    match j.get(key) {
        Some(v) => T::wire(v),
        None => Ok(T::absent()),
    }
}

pub fn read_wire_or_default<T: WireDefault>(j: &Json, key: &str) -> (out: Result<T, String>)
    ensures
        decoded(out) == wire_or_default_field::<T>(j@, key@),
{
    match j.get(key) {
        Some(v) => T::from_json(v),
        None => Ok(T::when_absent()),
    }
}

/// The values of a list, or what does not fit in the first bad item.
pub open spec fn list_of<T: Wire>(items: Seq<JsonView>) -> Result<Seq<T::V>, Seq<char>>
    decreases items.len(),
{
    if items.len() == 0 {
        Ok(Seq::empty())
    } else {
        match list_of::<T>(items.drop_last()) {
            Err(e) => Err(e),
            Ok(done) => match T::wire(items.last()) {
                Err(e) => Err(e),
                Ok(v) => Ok(done.push(v)),
            },
        }
    }
}

proof fn lemma_list_fault<T: Wire>(items: Seq<JsonView>, n: int)
    requires
        0 <= n <= items.len(),
        list_of::<T>(items.take(n)) is Err,
    ensures
        list_of::<T>(items) == list_of::<T>(items.take(n)),
    decreases items.len() - n,
{
    if n < items.len() {
        assert(items.take(n + 1).drop_last() =~= items.take(n));
        lemma_list_fault::<T>(items, n + 1);
    } else {
        assert(items.take(n) =~= items);
    }
}

pub open spec fn decoded_list<T: View>(r: Result<Vec<T>, String>) -> Result<Seq<T::V>, Seq<char>> {
    match r {
        Ok(v) => Ok(views(v@)),
        Err(e) => Err(e@),
    }
}

pub fn read_list<T: Wire>(items: &Vec<Json>) -> (out: Result<Vec<T>, String>)
    ensures
        decoded_list(out) == list_of::<T>(views(items@)),
{
    let mut out: Vec<T> = Vec::new();
    let mut i: usize = 0;
    let ghost all = views(items@);
    assert(views(out@) =~= Seq::<T::V>::empty());
    while i < items.len()
        invariant
            i <= items.len(),
            all == views(items@),
            list_of::<T>(all.take(i as int)) == Ok::<Seq<T::V>, Seq<char>>(views(out@)),
        decreases items.len() - i,
    {
        let ghost before = views(out@);
        assert(all.take(i + 1).drop_last() =~= all.take(i as int));
        assert(all.take(i + 1).last() == items@[i as int]@);
        match T::from_json(&items[i]) {
            Ok(v) => {
                out.push(v);
                assert(views(out@) =~= before.push(v@));
            },
            Err(e) => {
                proof {
                    lemma_list_fault::<T>(all, i + 1);
                }
                return Err(e);
            },
        }
        i = i + 1;
    }
    assert(all.take(i as int) =~= all);
    Ok(out)
}

pub open spec fn list_field<T: Wire>(j: JsonView, key: Seq<char>) -> Result<Seq<T::V>, Seq<char>> {
    match j.get(key) {
        Some(JsonView::Array(items)) => list_of::<T>(items),
        _ => Err(key),
    }
}

pub fn read_list_field<T: Wire>(j: &Json, key: &str) -> (out: Result<Vec<T>, String>)
    ensures
        decoded_list(out) == list_field::<T>(j@, key@),
{
    match j.get(key) {
        Some(Json::Array(items)) => {
            assert(Json::Array(*items)@->Array_0 =~= views(items@));
            read_list::<T>(items)
        },
        _ => Err(key.to_owned()),
    }
}


impl Wire for Json {
    open spec fn wire(j: JsonView) -> Result<JsonView, Seq<char>> {
        Ok(j)
    }

    fn from_json(j: &Json) -> (out: Result<Json, String>) {
        Ok(j.copy())
    }
}

/// The members of an object by their views.
pub open spec fn member_views(members: Seq<(String, Json)>) -> Seq<(Seq<char>, JsonView)> {
    Seq::new(members.len(), |i: int| (members[i].0@, members[i].1@))
}

/// The values of a map by their views.
pub open spec fn map_views<T: View>(m: Map<Seq<char>, T>) -> Map<Seq<char>, T::V> {
    Map::new(|k: Seq<char>| m.contains_key(k), |k: Seq<char>| m[k]@)
}

/// The map that the members of an object make, or what does not fit in the first bad
/// one.
pub open spec fn map_of<T: Wire>(members: Seq<(Seq<char>, JsonView)>) -> Result<
    Map<Seq<char>, T::V>,
    Seq<char>,
>
    decreases members.len(),
{
    if members.len() == 0 {
        Ok(Map::empty())
    } else {
        match map_of::<T>(members.drop_last()) {
            Err(e) => Err(e),
            Ok(done) => match T::wire(members.last().1) {
                Err(e) => Err(e),
                Ok(v) => Ok(done.insert(members.last().0, v)),
            },
        }
    }
}

proof fn lemma_map_fault<T: Wire>(members: Seq<(Seq<char>, JsonView)>, n: int)
    requires
        0 <= n <= members.len(),
        map_of::<T>(members.take(n)) is Err,
    ensures
        map_of::<T>(members) == map_of::<T>(members.take(n)),
    decreases members.len() - n,
{
    if n < members.len() {
        assert(members.take(n + 1).drop_last() =~= members.take(n));
        lemma_map_fault::<T>(members, n + 1);
    } else {
        assert(members.take(n) =~= members);
    }
}

pub open spec fn decoded_map<T: View>(r: Result<KeyedMap<String, T>, String>) -> Result<
    Map<Seq<char>, T::V>,
    Seq<char>,
> {
    match r {
        Ok(m) => Ok(map_views(m@)),
        Err(e) => Err(e@),
    }
}

pub fn read_map<T: Wire>(members: &Vec<(String, Json)>) -> (out: Result<
    KeyedMap<String, T>,
    String,
>)
    ensures
        decoded_map(out) == map_of::<T>(member_views(members@)),
{
    let mut out: KeyedMap<String, T> = KeyedMap::new();
    let mut i: usize = 0;
    let ghost all = member_views(members@);
    assert(map_views(out@) =~= Map::<Seq<char>, T::V>::empty());
    while i < members.len()
        invariant
            i <= members.len(),
            all == member_views(members@),
            map_of::<T>(all.take(i as int)) == Ok::<Map<Seq<char>, T::V>, Seq<char>>(
                map_views(out@),
            ),
        decreases members.len() - i,
    {
        let ghost before = map_views(out@);
        assert(all.take(i + 1).drop_last() =~= all.take(i as int));
        assert(all.take(i + 1).last() == all[i as int]);
        match T::from_json(&members[i].1) {
            Ok(v) => {
                out.insert(members[i].0.clone(), v);
                assert(map_views(out@) =~= before.insert(all[i as int].0, v@));
            },
            Err(e) => {
                proof {
                    lemma_map_fault::<T>(all, i + 1);
                }
                return Err(e);
            },
        }
        i = i + 1;
    }
    assert(all.take(i as int) =~= all);
    Ok(out)
}

/// A map that is empty where it is absent.
pub open spec fn map_or_empty_field<T: Wire>(j: JsonView, key: Seq<char>) -> Result<
    Map<Seq<char>, T::V>,
    Seq<char>,
> {
    match j.get(key) {
        None => Ok(Map::empty()),
        Some(JsonView::Object(members)) => map_of::<T>(members),
        Some(_) => Err(key),
    }
}

pub fn read_map_or_empty<T: Wire>(j: &Json, key: &str) -> (out: Result<
    KeyedMap<String, T>,
    String,
>)
    ensures
        decoded_map(out) == map_or_empty_field::<T>(j@, key@),
{
    match j.get(key) {
        None => {
            let none: KeyedMap<String, T> = KeyedMap::new();
            assert(map_views(none@) =~= Map::<Seq<char>, T::V>::empty());
            Ok(none)
        },
        Some(Json::Object(members)) => {
            assert(Json::Object(*members)@->Object_0 =~= member_views(members@));
            read_map::<T>(members)
        },
        Some(_) => Err(key.to_owned()),
    }
}

pub open spec fn map_option_view<T: View>(m: Option<KeyedMap<String, T>>) -> Option<
    Map<Seq<char>, T::V>,
> {
    match m {
        Some(m) => Some(map_views(m@)),
        None => None,
    }
}

/// A map that may be absent or null.
pub open spec fn maybe_map_field<T: Wire>(j: JsonView, key: Seq<char>) -> Result<
    Option<Map<Seq<char>, T::V>>,
    Seq<char>,
> {
    match j.present(key) {
        None => Ok(None),
        Some(JsonView::Object(members)) => match map_of::<T>(members) {
            Ok(m) => Ok(Some(m)),
            Err(e) => Err(e),
        },
        Some(_) => Err(key),
    }
}

pub fn read_maybe_map<T: Wire>(j: &Json, key: &str) -> (out: Result<
    Option<KeyedMap<String, T>>,
    String,
>)
    ensures
        match out {
            Ok(m) => maybe_map_field::<T>(j@, key@) == Ok::<
                Option<Map<Seq<char>, T::V>>,
                Seq<char>,
            >(map_option_view(m)),
            Err(e) => maybe_map_field::<T>(j@, key@) == Err::<
                Option<Map<Seq<char>, T::V>>,
                Seq<char>,
            >(e@),
        },
{
    match j.present(key) {
        None => Ok(None),
        Some(Json::Object(members)) => {
            assert(Json::Object(*members)@->Object_0 =~= member_views(members@));
            match read_map::<T>(members) {
                Ok(m) => Ok(Some(m)),
                Err(e) => Err(e),
            }
        },
        Some(_) => Err(key.to_owned()),
    }
}

/// The name of the variant that a value is: its text, or the only key of an object that
/// holds nothing under it.
pub open spec fn variant(j: JsonView) -> Option<Seq<char>> {
    match j {
        JsonView::Text(t) => Some(t),
        JsonView::Object(members) => if members.len() == 1 && members[0].1 == JsonView::Null {
            Some(members[0].0)
        } else {
            None
        },
        _ => None,
    }
}

pub fn variant_name(j: &Json) -> (out: Option<&str>)
    ensures
        option_str_view(out) == variant(j@),
{
    match j {
        Json::Text(t) => Some(t.as_str()),
        Json::Object(members) => {
            assert(j@->Object_0.len() == members@.len());
            if members.len() == 1 && members[0].1.is_null() {
                assert(j@->Object_0[0] == (members@[0].0@, members@[0].1@));
                Some(members[0].0.as_str())
            } else {
                None
            }
        },
        _ => None,
    }
}

/// The lifecycle stage of a verification flow.
#[derive(Debug, Clone, Copy, PartialEq, Eq, Structural)]
pub enum FlowStage {
    Requested,
    Ready,
    KeysExchanged,
    Confirmed,
    Done,
    Cancelled,
}

impl View for FlowStage {
    type V = FlowStage;

    open spec fn view(&self) -> FlowStage {
        *self
    }
}

impl Wire for FlowStage {
    open spec fn wire(j: JsonView) -> Result<FlowStage, Seq<char>> {
        if variant(j) == Some("requested"@) {
            Ok(FlowStage::Requested)
        } else if variant(j) == Some("ready"@) {
            Ok(FlowStage::Ready)
        } else if variant(j) == Some("keys_exchanged"@) {
            Ok(FlowStage::KeysExchanged)
        } else if variant(j) == Some("confirmed"@) {
            Ok(FlowStage::Confirmed)
        } else if variant(j) == Some("done"@) {
            Ok(FlowStage::Done)
        } else if variant(j) == Some("cancelled"@) {
            Ok(FlowStage::Cancelled)
        } else {
            Err("stage"@)
        }
    }

    fn from_json(j: &Json) -> (out: Result<FlowStage, String>) {
        let t = match variant_name(j) {
            Some(t) => t,
            None => return Err("stage".to_owned()),
        };
        if same_text(t, "requested") {
            Ok(FlowStage::Requested)
        } else if same_text(t, "ready") {
            Ok(FlowStage::Ready)
        } else if same_text(t, "keys_exchanged") {
            Ok(FlowStage::KeysExchanged)
        } else if same_text(t, "confirmed") {
            Ok(FlowStage::Confirmed)
        } else if same_text(t, "done") {
            Ok(FlowStage::Done)
        } else if same_text(t, "cancelled") {
            Ok(FlowStage::Cancelled)
        } else {
            Err("stage".to_owned())
        }
    }
}

/// The state of the key backup.
#[derive(Debug, Clone, Copy, PartialEq, Eq, Structural)]
pub enum BackupState {
    Unknown,
    Creating,
    Enabling,
    Resuming,
    Enabled,
    Downloading,
    Disabling,
}

impl View for BackupState {
    type V = BackupState;

    open spec fn view(&self) -> BackupState {
        *self
    }
}

impl Wire for BackupState {
    open spec fn wire(j: JsonView) -> Result<BackupState, Seq<char>> {
        if variant(j) == Some("unknown"@) {
            Ok(BackupState::Unknown)
        } else if variant(j) == Some("creating"@) {
            Ok(BackupState::Creating)
        } else if variant(j) == Some("enabling"@) {
            Ok(BackupState::Enabling)
        } else if variant(j) == Some("resuming"@) {
            Ok(BackupState::Resuming)
        } else if variant(j) == Some("enabled"@) {
            Ok(BackupState::Enabled)
        } else if variant(j) == Some("downloading"@) {
            Ok(BackupState::Downloading)
        } else if variant(j) == Some("disabling"@) {
            Ok(BackupState::Disabling)
        } else {
            Err("backup_state"@)
        }
    }

    fn from_json(j: &Json) -> (out: Result<BackupState, String>) {
        let t = match variant_name(j) {
            Some(t) => t,
            None => return Err("backup_state".to_owned()),
        };
        if same_text(t, "unknown") {
            Ok(BackupState::Unknown)
        } else if same_text(t, "creating") {
            Ok(BackupState::Creating)
        } else if same_text(t, "enabling") {
            Ok(BackupState::Enabling)
        } else if same_text(t, "resuming") {
            Ok(BackupState::Resuming)
        } else if same_text(t, "enabled") {
            Ok(BackupState::Enabled)
        } else if same_text(t, "downloading") {
            Ok(BackupState::Downloading)
        } else if same_text(t, "disabling") {
            Ok(BackupState::Disabling)
        } else {
            Err("backup_state".to_owned())
        }
    }
}

/// Whether the secret storage is complete. It does not say that keys were
/// recovered.
#[derive(Debug, Clone, Copy, PartialEq, Eq, Structural)]
pub enum RecoveryState {
    Unknown,
    Enabled,
    Disabled,
    Incomplete,
}

impl View for RecoveryState {
    type V = RecoveryState;

    open spec fn view(&self) -> RecoveryState {
        *self
    }
}

impl Wire for RecoveryState {
    open spec fn wire(j: JsonView) -> Result<RecoveryState, Seq<char>> {
        if variant(j) == Some("unknown"@) {
            Ok(RecoveryState::Unknown)
        } else if variant(j) == Some("enabled"@) {
            Ok(RecoveryState::Enabled)
        } else if variant(j) == Some("disabled"@) {
            Ok(RecoveryState::Disabled)
        } else if variant(j) == Some("incomplete"@) {
            Ok(RecoveryState::Incomplete)
        } else {
            Err("recovery_state"@)
        }
    }

    fn from_json(j: &Json) -> (out: Result<RecoveryState, String>) {
        let t = match variant_name(j) {
            Some(t) => t,
            None => return Err("recovery_state".to_owned()),
        };
        if same_text(t, "unknown") {
            Ok(RecoveryState::Unknown)
        } else if same_text(t, "enabled") {
            Ok(RecoveryState::Enabled)
        } else if same_text(t, "disabled") {
            Ok(RecoveryState::Disabled)
        } else if same_text(t, "incomplete") {
            Ok(RecoveryState::Incomplete)
        } else {
            Err("recovery_state".to_owned())
        }
    }
}

/// What a request to enable the backup did.
#[derive(Debug, Clone, Copy, PartialEq, Eq, Structural)]
pub enum BackupAction {
    Joined,
    Enabled,
    ExportPending,
    Failed,
    AlreadyUploading,
}

impl View for BackupAction {
    type V = BackupAction;

    open spec fn view(&self) -> BackupAction {
        *self
    }
}

impl Wire for BackupAction {
    open spec fn wire(j: JsonView) -> Result<BackupAction, Seq<char>> {
        if variant(j) == Some("joined"@) {
            Ok(BackupAction::Joined)
        } else if variant(j) == Some("enabled"@) {
            Ok(BackupAction::Enabled)
        } else if variant(j) == Some("export_pending"@) {
            Ok(BackupAction::ExportPending)
        } else if variant(j) == Some("failed"@) {
            Ok(BackupAction::Failed)
        } else if variant(j) == Some("already_uploading"@) {
            Ok(BackupAction::AlreadyUploading)
        } else {
            Err("backup_action"@)
        }
    }

    fn from_json(j: &Json) -> (out: Result<BackupAction, String>) {
        let t = match variant_name(j) {
            Some(t) => t,
            None => return Err("backup_action".to_owned()),
        };
        if same_text(t, "joined") {
            Ok(BackupAction::Joined)
        } else if same_text(t, "enabled") {
            Ok(BackupAction::Enabled)
        } else if same_text(t, "export_pending") {
            Ok(BackupAction::ExportPending)
        } else if same_text(t, "failed") {
            Ok(BackupAction::Failed)
        } else if same_text(t, "already_uploading") {
            Ok(BackupAction::AlreadyUploading)
        } else {
            Err("backup_action".to_owned())
        }
    }
}

/// The state of an account on the server.
#[derive(Debug, Clone, Copy, PartialEq, Eq, Structural)]
pub enum AccountState {
    Active,
    Deactivated,
    Deleting,
}

impl View for AccountState {
    type V = AccountState;

    open spec fn view(&self) -> AccountState {
        *self
    }
}

impl Wire for AccountState {
    open spec fn wire(j: JsonView) -> Result<AccountState, Seq<char>> {
        if variant(j) == Some("active"@) {
            Ok(AccountState::Active)
        } else if variant(j) == Some("deactivated"@) {
            Ok(AccountState::Deactivated)
        } else if variant(j) == Some("deleting"@) {
            Ok(AccountState::Deleting)
        } else {
            Err("state"@)
        }
    }

    fn from_json(j: &Json) -> (out: Result<AccountState, String>) {
        let t = match variant_name(j) {
            Some(t) => t,
            None => return Err("state".to_owned()),
        };
        if same_text(t, "active") {
            Ok(AccountState::Active)
        } else if same_text(t, "deactivated") {
            Ok(AccountState::Deactivated)
        } else if same_text(t, "deleting") {
            Ok(AccountState::Deleting)
        } else {
            Err("state".to_owned())
        }
    }
}

impl WireDefault for BackupState {
    open spec fn absent() -> BackupState {
        BackupState::Unknown
    }

    fn when_absent() -> (out: BackupState) {
        BackupState::Unknown
    }
}

impl Default for BackupState {
    fn default() -> (out: BackupState)
        ensures
            out == BackupState::Unknown,
    {
        BackupState::Unknown
    }
}

impl WireDefault for RecoveryState {
    open spec fn absent() -> RecoveryState {
        RecoveryState::Unknown
    }

    fn when_absent() -> (out: RecoveryState) {
        RecoveryState::Unknown
    }
}

impl Default for RecoveryState {
    fn default() -> (out: RecoveryState)
        ensures
            out == RecoveryState::Unknown,
    {
        RecoveryState::Unknown
    }
}

impl BackupState {
    /// The name of the state on the wire.
    pub open spec fn name(self) -> Seq<char> {
        match self {
            BackupState::Unknown => "unknown"@,
            BackupState::Creating => "creating"@,
            BackupState::Enabling => "enabling"@,
            BackupState::Resuming => "resuming"@,
            BackupState::Enabled => "enabled"@,
            BackupState::Downloading => "downloading"@,
            BackupState::Disabling => "disabling"@,
        }
    }

    pub fn as_str(self) -> (out: &'static str)
        ensures
            out@ == self.name(),
    {
        match self {
            BackupState::Unknown => "unknown",
            BackupState::Creating => "creating",
            BackupState::Enabling => "enabling",
            BackupState::Resuming => "resuming",
            BackupState::Enabled => "enabled",
            BackupState::Downloading => "downloading",
            BackupState::Disabling => "disabling",
        }
    }
}

impl RecoveryState {
    /// The name of the state on the wire.
    pub open spec fn name(self) -> Seq<char> {
        match self {
            RecoveryState::Unknown => "unknown"@,
            RecoveryState::Enabled => "enabled"@,
            RecoveryState::Disabled => "disabled"@,
            RecoveryState::Incomplete => "incomplete"@,
        }
    }

    pub fn as_str(self) -> (out: &'static str)
        ensures
            out@ == self.name(),
    {
        match self {
            RecoveryState::Unknown => "unknown",
            RecoveryState::Enabled => "enabled",
            RecoveryState::Disabled => "disabled",
            RecoveryState::Incomplete => "incomplete",
        }
    }
}

/// One symbol of a short authentication string, and its English name.
#[derive(Debug, PartialEq, Eq)]
pub struct EmojiDto {
    pub symbol: String,
    pub description: String,
}

#[verifier::ext_equal]
pub struct EmojiView {
    pub symbol: Seq<char>,
    pub description: Seq<char>,
}

impl View for EmojiDto {
    type V = EmojiView;

    open spec fn view(&self) -> EmojiView {
        EmojiView {
            symbol: self.symbol@,
            description: self.description@,
        }
    }
}

impl Wire for EmojiDto {
    open spec fn wire(j: JsonView) -> Result<EmojiView, Seq<char>> {
        let j = by_name(j, seq!["symbol"@, "description"@], 2);
        let symbol = text_field(j, "symbol"@);
        let description = text_field(j, "description"@);
        if symbol is Err {
            Err(symbol->Err_0)
        } else if description is Err {
            Err(description->Err_0)
        } else {
            Ok(
                EmojiView {
                    symbol: symbol->Ok_0,
                    description: description->Ok_0,
                },
            )
        }
    }

    fn from_json(j: &Json) -> (out: Result<EmojiDto, String>) {
        let names: Vec<&str> = vec!["symbol", "description"];
        assert(views(names@) =~= seq!["symbol"@, "description"@]);
        let named = name_items(j, &names, 2);
        let j = match &named {
            Some(n) => n,
            None => j,
        };
        let symbol = match read_text(j, "symbol") {
            Ok(v) => v,
            Err(e) => return Err(e),
        };
        let description = match read_text(j, "description") {
            Ok(v) => v,
            Err(e) => return Err(e),
        };
        Ok(EmojiDto { symbol, description })
    }
}

pub open spec fn emoji_option_view(e: Option<Vec<EmojiDto>>) -> Option<Seq<EmojiView>> {
    match e {
        Some(v) => Some(views(v@)),
        None => None,
    }
}

pub open spec fn emoji_field(j: JsonView, key: Seq<char>) -> Result<
    Option<Seq<EmojiView>>,
    Seq<char>,
> {
    match j.present(key) {
        None => Ok(None),
        Some(JsonView::Array(items)) => match list_of::<EmojiDto>(items) {
            Ok(v) => Ok(Some(v)),
            Err(e) => Err(e),
        },
        Some(_) => Err(key),
    }
}

pub fn read_emoji(j: &Json, key: &str) -> (out: Result<Option<Vec<EmojiDto>>, String>)
    ensures
        match out {
            Ok(v) => emoji_field(j@, key@) == Ok::<Option<Seq<EmojiView>>, Seq<char>>(
                emoji_option_view(v),
            ),
            Err(e) => emoji_field(j@, key@) == Err::<Option<Seq<EmojiView>>, Seq<char>>(e@),
        },
{
    match j.present(key) {
        None => Ok(None),
        Some(Json::Array(items)) => {
            assert(Json::Array(*items)@->Array_0 =~= views(items@));
            match read_list::<EmojiDto>(items) {
                Ok(v) => Ok(Some(v)),
                Err(e) => Err(e),
            }
        },
        Some(_) => Err(key.to_owned()),
    }
}

pub open spec fn decimals_view(d: Option<[u16; 3]>) -> Option<(u16, u16, u16)> {
    match d {
        Some(a) => Some((a@[0], a@[1], a@[2])),
        None => None,
    }
}

/// A number that fits in sixteen bits.
pub open spec fn small(j: JsonView) -> Option<u16> {
    match j.integer() {
        Some(n) => if 0 <= n <= 0xffff {
            Some(n as u16)
        } else {
            None
        },
        None => None,
    }
}

fn read_small(j: &Json) -> (out: Option<u16>)
    ensures
        out == small(j@),
{
    match j.integer() {
        Some(n) => if 0 <= n && n <= 0xffff {
            Some(n as u16)
        } else {
            None
        },
        None => None,
    }
}

pub open spec fn decimals_field(j: JsonView, key: Seq<char>) -> Result<
    Option<(u16, u16, u16)>,
    Seq<char>,
> {
    match j.present(key) {
        None => Ok(None),
        Some(JsonView::Array(items)) => if items.len() == 3 && small(items[0]) is Some && small(
            items[1],
        ) is Some && small(items[2]) is Some {
            Ok(Some((small(items[0])->0, small(items[1])->0, small(items[2])->0)))
        } else {
            Err(key)
        },
        Some(_) => Err(key),
    }
}

pub fn read_decimals(j: &Json, key: &str) -> (out: Result<Option<[u16; 3]>, String>)
    ensures
        match out {
            Ok(v) => decimals_field(j@, key@) == Ok::<Option<(u16, u16, u16)>, Seq<char>>(
                decimals_view(v),
            ),
            Err(e) => decimals_field(j@, key@) == Err::<Option<(u16, u16, u16)>, Seq<char>>(e@),
        },
{
    match j.present(key) {
        None => Ok(None),
        Some(Json::Array(items)) => {
            if items.len() != 3 {
                return Err(key.to_owned());
            }
            match (read_small(&items[0]), read_small(&items[1]), read_small(&items[2])) {
                (Some(a), Some(b), Some(c)) => Ok(Some([a, b, c])),
                _ => Err(key.to_owned()),
            }
        },
        Some(_) => Err(key.to_owned()),
    }
}

/// The payload of a `verification.*` frame. The server leaves out what a stage
/// does not have.
#[derive(Debug, PartialEq, Eq)]
pub struct VerificationFrameDto {
    pub flow_id: String,
    /// The user being verified. Older servers leave it out.
    pub user_id: String,
    pub device_id: Option<String>,
    pub emoji: Option<Vec<EmojiDto>>,
    pub decimals: Option<[u16; 3]>,
    pub reason: Option<String>,
}

#[verifier::ext_equal]
pub struct VerificationFrameView {
    pub flow_id: Seq<char>,
    pub user_id: Seq<char>,
    pub device_id: Option<Seq<char>>,
    pub emoji: Option<Seq<EmojiView>>,
    pub decimals: Option<(u16, u16, u16)>,
    pub reason: Option<Seq<char>>,
}

impl View for VerificationFrameDto {
    type V = VerificationFrameView;

    open spec fn view(&self) -> VerificationFrameView {
        VerificationFrameView {
            flow_id: self.flow_id@,
            user_id: self.user_id@,
            device_id: option_view(self.device_id),
            emoji: emoji_option_view(self.emoji),
            decimals: decimals_view(self.decimals),
            reason: option_view(self.reason),
        }
    }
}

impl Wire for VerificationFrameDto {
    open spec fn wire(j: JsonView) -> Result<VerificationFrameView, Seq<char>> {
        let j = by_name(j, seq![
            "flow_id"@,
            "user_id"@,
            "device_id"@,
            "emoji"@,
            "decimals"@,
            "reason"@,
        ], 1);
        let flow_id = text_field(j, "flow_id"@);
        let user_id = text_or_empty_field(j, "user_id"@);
        let device_id = maybe_text_field(j, "device_id"@);
        let emoji = emoji_field(j, "emoji"@);
        let decimals = decimals_field(j, "decimals"@);
        let reason = maybe_text_field(j, "reason"@);
        if flow_id is Err {
            Err(flow_id->Err_0)
        } else if user_id is Err {
            Err(user_id->Err_0)
        } else if device_id is Err {
            Err(device_id->Err_0)
        } else if emoji is Err {
            Err(emoji->Err_0)
        } else if decimals is Err {
            Err(decimals->Err_0)
        } else if reason is Err {
            Err(reason->Err_0)
        } else {
            Ok(
                VerificationFrameView {
                    flow_id: flow_id->Ok_0,
                    user_id: user_id->Ok_0,
                    device_id: device_id->Ok_0,
                    emoji: emoji->Ok_0,
                    decimals: decimals->Ok_0,
                    reason: reason->Ok_0,
                },
            )
        }
    }

    fn from_json(j: &Json) -> (out: Result<VerificationFrameDto, String>) {
        let names: Vec<&str> = vec![
            "flow_id",
            "user_id",
            "device_id",
            "emoji",
            "decimals",
            "reason",
        ];
        assert(views(names@) =~= seq![
            "flow_id"@,
            "user_id"@,
            "device_id"@,
            "emoji"@,
            "decimals"@,
            "reason"@,
        ]);
        let named = name_items(j, &names, 1);
        let j = match &named {
            Some(n) => n,
            None => j,
        };
        let flow_id = match read_text(j, "flow_id") {
            Ok(v) => v,
            Err(e) => return Err(e),
        };
        let user_id = match read_text_or_empty(j, "user_id") {
            Ok(v) => v,
            Err(e) => return Err(e),
        };
        let device_id = match read_maybe_text(j, "device_id") {
            Ok(v) => v,
            Err(e) => return Err(e),
        };
        let emoji = match read_emoji(j, "emoji") {
            Ok(v) => v,
            Err(e) => return Err(e),
        };
        let decimals = match read_decimals(j, "decimals") {
            Ok(v) => v,
            Err(e) => return Err(e),
        };
        let reason = match read_maybe_text(j, "reason") {
            Ok(v) => v,
            Err(e) => return Err(e),
        };
        Ok(VerificationFrameDto { flow_id, user_id, device_id, emoji, decimals, reason })
    }
}

/// The payload of a `sender_trust.violation` frame.
#[derive(Debug, PartialEq, Eq)]
pub struct SenderTrustViolationDto {
    pub user_id: String,
    pub verification_violation: bool,
}

#[verifier::ext_equal]
pub struct SenderTrustViolationView {
    pub user_id: Seq<char>,
    pub verification_violation: bool,
}

impl View for SenderTrustViolationDto {
    type V = SenderTrustViolationView;

    open spec fn view(&self) -> SenderTrustViolationView {
        SenderTrustViolationView {
            user_id: self.user_id@,
            verification_violation: self.verification_violation,
        }
    }
}

impl Wire for SenderTrustViolationDto {
    open spec fn wire(j: JsonView) -> Result<SenderTrustViolationView, Seq<char>> {
        let j = by_name(j, seq!["user_id"@, "verification_violation"@], 1);
        let user_id = text_field(j, "user_id"@);
        let verification_violation = bool_or_false_field(j, "verification_violation"@);
        if user_id is Err {
            Err(user_id->Err_0)
        } else if verification_violation is Err {
            Err(verification_violation->Err_0)
        } else {
            Ok(
                SenderTrustViolationView {
                    user_id: user_id->Ok_0,
                    verification_violation: verification_violation->Ok_0,
                },
            )
        }
    }

    fn from_json(j: &Json) -> (out: Result<SenderTrustViolationDto, String>) {
        let names: Vec<&str> = vec!["user_id", "verification_violation"];
        assert(views(names@) =~= seq!["user_id"@, "verification_violation"@]);
        let named = name_items(j, &names, 1);
        let j = match &named {
            Some(n) => n,
            None => j,
        };
        let user_id = match read_text(j, "user_id") {
            Ok(v) => v,
            Err(e) => return Err(e),
        };
        let verification_violation = match read_bool_or_false(j, "verification_violation") {
            Ok(v) => v,
            Err(e) => return Err(e),
        };
        Ok(SenderTrustViolationDto { user_id, verification_violation })
    }
}

/// The payload of an `ephemeral.passthrough` frame: a raw typing notice or read
/// receipt. A signal of an account has no room.
#[derive(Debug, PartialEq, Eq)]
pub struct EphemeralPassthroughDto {
    pub room_id: Option<String>,
    pub event_type: String,
    pub content: Json,
}

#[verifier::ext_equal]
pub struct EphemeralPassthroughView {
    pub room_id: Option<Seq<char>>,
    pub event_type: Seq<char>,
    pub content: JsonView,
}

impl View for EphemeralPassthroughDto {
    type V = EphemeralPassthroughView;

    open spec fn view(&self) -> EphemeralPassthroughView {
        EphemeralPassthroughView {
            room_id: option_view(self.room_id),
            event_type: self.event_type@,
            content: self.content@,
        }
    }
}

impl Wire for EphemeralPassthroughDto {
    open spec fn wire(j: JsonView) -> Result<EphemeralPassthroughView, Seq<char>> {
        let j = by_name(j, seq!["room_id"@, "event_type"@, "content"@], 2);
        let room_id = maybe_text_field(j, "room_id"@);
        let event_type = text_field(j, "event_type"@);
        if room_id is Err {
            Err(room_id->Err_0)
        } else if event_type is Err {
            Err(event_type->Err_0)
        } else {
            Ok(
                EphemeralPassthroughView {
                    room_id: room_id->Ok_0,
                    event_type: event_type->Ok_0,
                    content: match j.get("content"@) {
                        Some(v) => v,
                        None => JsonView::Null,
                    },
                },
            )
        }
    }

    fn from_json(j: &Json) -> (out: Result<EphemeralPassthroughDto, String>) {
        let names: Vec<&str> = vec!["room_id", "event_type", "content"];
        assert(views(names@) =~= seq!["room_id"@, "event_type"@, "content"@]);
        let named = name_items(j, &names, 2);
        let j = match &named {
            Some(n) => n,
            None => j,
        };
        let room_id = match read_maybe_text(j, "room_id") {
            Ok(v) => v,
            Err(e) => return Err(e),
        };
        let event_type = match read_text(j, "event_type") {
            Ok(v) => v,
            Err(e) => return Err(e),
        };
        let content = match j.get("content") {
            Some(v) => v.copy(),
            None => Json::Null,
        };
        Ok(EphemeralPassthroughDto { room_id, event_type, content })
    }
}

/// The event that a send made.
#[derive(Debug)]
pub struct SendResultDto {
    pub event_id: String,
}

#[verifier::ext_equal]
pub struct SendResultView {
    pub event_id: Seq<char>,
}

impl View for SendResultDto {
    type V = SendResultView;

    open spec fn view(&self) -> SendResultView {
        SendResultView {
            event_id: self.event_id@,
        }
    }
}

impl Wire for SendResultDto {
    open spec fn wire(j: JsonView) -> Result<SendResultView, Seq<char>> {
        let j = by_name(j, seq!["event_id"@], 1);
        let event_id = text_field(j, "event_id"@);
        if event_id is Err {
            Err(event_id->Err_0)
        } else {
            Ok(
                SendResultView {
                    event_id: event_id->Ok_0,
                },
            )
        }
    }

    fn from_json(j: &Json) -> (out: Result<SendResultDto, String>) {
        let names: Vec<&str> = vec!["event_id"];
        assert(views(names@) =~= seq!["event_id"@]);
        let named = name_items(j, &names, 1);
        let j = match &named {
            Some(n) => n,
            None => j,
        };
        let event_id = match read_text(j, "event_id") {
            Ok(v) => v,
            Err(e) => return Err(e),
        };
        Ok(SendResultDto { event_id })
    }
}

/// The handle of an upload that a later send claims.
#[derive(Debug)]
pub struct StagedUploadDto {
    pub upload_id: u128,
}

#[verifier::ext_equal]
pub struct StagedUploadView {
    pub upload_id: u128,
}

impl View for StagedUploadDto {
    type V = StagedUploadView;

    open spec fn view(&self) -> StagedUploadView {
        StagedUploadView {
            upload_id: self.upload_id,
        }
    }
}

impl Wire for StagedUploadDto {
    open spec fn wire(j: JsonView) -> Result<StagedUploadView, Seq<char>> {
        let j = by_name(j, seq!["upload_id"@], 1);
        let upload_id = id_field(j, "upload_id"@);
        if upload_id is Err {
            Err(upload_id->Err_0)
        } else {
            Ok(
                StagedUploadView {
                    upload_id: upload_id->Ok_0,
                },
            )
        }
    }

    fn from_json(j: &Json) -> (out: Result<StagedUploadDto, String>) {
        let names: Vec<&str> = vec!["upload_id"];
        assert(views(names@) =~= seq!["upload_id"@]);
        let named = name_items(j, &names, 1);
        let j = match &named {
            Some(n) => n,
            None => j,
        };
        let upload_id = match read_id(j, "upload_id") {
            Ok(v) => v,
            Err(e) => return Err(e),
        };
        Ok(StagedUploadDto { upload_id })
    }
}

/// The id of a verification flow that was started.
#[derive(Debug)]
pub struct StartVerifyResponse {
    pub flow_id: String,
}

#[verifier::ext_equal]
pub struct StartVerifyView {
    pub flow_id: Seq<char>,
}

impl View for StartVerifyResponse {
    type V = StartVerifyView;

    open spec fn view(&self) -> StartVerifyView {
        StartVerifyView {
            flow_id: self.flow_id@,
        }
    }
}

impl Wire for StartVerifyResponse {
    open spec fn wire(j: JsonView) -> Result<StartVerifyView, Seq<char>> {
        let j = by_name(j, seq!["flow_id"@], 1);
        let flow_id = text_field(j, "flow_id"@);
        if flow_id is Err {
            Err(flow_id->Err_0)
        } else {
            Ok(
                StartVerifyView {
                    flow_id: flow_id->Ok_0,
                },
            )
        }
    }

    fn from_json(j: &Json) -> (out: Result<StartVerifyResponse, String>) {
        let names: Vec<&str> = vec!["flow_id"];
        assert(views(names@) =~= seq!["flow_id"@]);
        let named = name_items(j, &names, 1);
        let j = match &named {
            Some(n) => n,
            None => j,
        };
        let flow_id = match read_text(j, "flow_id") {
            Ok(v) => v,
            Err(e) => return Err(e),
        };
        Ok(StartVerifyResponse { flow_id })
    }
}

/// A verification flow as the server keeps it.
#[derive(Debug, PartialEq, Eq)]
pub struct FlowDto {
    pub flow_id: String,
    pub user_id: String,
    pub device_id: Option<String>,
    pub stage: FlowStage,
    pub emoji: Option<Vec<EmojiDto>>,
    pub decimals: Option<[u16; 3]>,
    pub cancel_reason: Option<String>,
}

#[verifier::ext_equal]
pub struct FlowView {
    pub flow_id: Seq<char>,
    pub user_id: Seq<char>,
    pub device_id: Option<Seq<char>>,
    pub stage: FlowStage,
    pub emoji: Option<Seq<EmojiView>>,
    pub decimals: Option<(u16, u16, u16)>,
    pub cancel_reason: Option<Seq<char>>,
}

impl View for FlowDto {
    type V = FlowView;

    open spec fn view(&self) -> FlowView {
        FlowView {
            flow_id: self.flow_id@,
            user_id: self.user_id@,
            device_id: option_view(self.device_id),
            stage: self.stage@,
            emoji: emoji_option_view(self.emoji),
            decimals: decimals_view(self.decimals),
            cancel_reason: option_view(self.cancel_reason),
        }
    }
}

impl Wire for FlowDto {
    open spec fn wire(j: JsonView) -> Result<FlowView, Seq<char>> {
        let j = by_name(j, seq![
            "flow_id"@,
            "user_id"@,
            "device_id"@,
            "stage"@,
            "emoji"@,
            "decimals"@,
            "cancel_reason"@,
        ], 4);
        let flow_id = text_field(j, "flow_id"@);
        let user_id = text_or_empty_field(j, "user_id"@);
        let device_id = maybe_text_field(j, "device_id"@);
        let stage = wire_field::<FlowStage>(j, "stage"@);
        let emoji = emoji_field(j, "emoji"@);
        let decimals = decimals_field(j, "decimals"@);
        let cancel_reason = maybe_text_field(j, "cancel_reason"@);
        if flow_id is Err {
            Err(flow_id->Err_0)
        } else if user_id is Err {
            Err(user_id->Err_0)
        } else if device_id is Err {
            Err(device_id->Err_0)
        } else if stage is Err {
            Err(stage->Err_0)
        } else if emoji is Err {
            Err(emoji->Err_0)
        } else if decimals is Err {
            Err(decimals->Err_0)
        } else if cancel_reason is Err {
            Err(cancel_reason->Err_0)
        } else {
            Ok(
                FlowView {
                    flow_id: flow_id->Ok_0,
                    user_id: user_id->Ok_0,
                    device_id: device_id->Ok_0,
                    stage: stage->Ok_0,
                    emoji: emoji->Ok_0,
                    decimals: decimals->Ok_0,
                    cancel_reason: cancel_reason->Ok_0,
                },
            )
        }
    }

    fn from_json(j: &Json) -> (out: Result<FlowDto, String>) {
        let names: Vec<&str> = vec![
            "flow_id",
            "user_id",
            "device_id",
            "stage",
            "emoji",
            "decimals",
            "cancel_reason",
        ];
        assert(views(names@) =~= seq![
            "flow_id"@,
            "user_id"@,
            "device_id"@,
            "stage"@,
            "emoji"@,
            "decimals"@,
            "cancel_reason"@,
        ]);
        let named = name_items(j, &names, 4);
        let j = match &named {
            Some(n) => n,
            None => j,
        };
        let flow_id = match read_text(j, "flow_id") {
            Ok(v) => v,
            Err(e) => return Err(e),
        };
        let user_id = match read_text_or_empty(j, "user_id") {
            Ok(v) => v,
            Err(e) => return Err(e),
        };
        let device_id = match read_maybe_text(j, "device_id") {
            Ok(v) => v,
            Err(e) => return Err(e),
        };
        let stage = match read_wire::<FlowStage>(j, "stage") {
            Ok(v) => v,
            Err(e) => return Err(e),
        };
        let emoji = match read_emoji(j, "emoji") {
            Ok(v) => v,
            Err(e) => return Err(e),
        };
        let decimals = match read_decimals(j, "decimals") {
            Ok(v) => v,
            Err(e) => return Err(e),
        };
        let cancel_reason = match read_maybe_text(j, "cancel_reason") {
            Ok(v) => v,
            Err(e) => return Err(e),
        };
        Ok(FlowDto { flow_id, user_id, device_id, stage, emoji, decimals, cancel_reason })
    }
}

/// One device of a user.
#[derive(Debug, PartialEq, Eq)]
pub struct DeviceListEntryDto {
    pub device_id: String,
    pub display_name: Option<String>,
}

#[verifier::ext_equal]
pub struct DeviceListEntryView {
    pub device_id: Seq<char>,
    pub display_name: Option<Seq<char>>,
}

impl View for DeviceListEntryDto {
    type V = DeviceListEntryView;

    open spec fn view(&self) -> DeviceListEntryView {
        DeviceListEntryView {
            device_id: self.device_id@,
            display_name: option_view(self.display_name),
        }
    }
}

impl Wire for DeviceListEntryDto {
    open spec fn wire(j: JsonView) -> Result<DeviceListEntryView, Seq<char>> {
        let j = by_name(j, seq!["device_id"@, "display_name"@], 1);
        let device_id = text_field(j, "device_id"@);
        let display_name = maybe_text_field(j, "display_name"@);
        if device_id is Err {
            Err(device_id->Err_0)
        } else if display_name is Err {
            Err(display_name->Err_0)
        } else {
            Ok(
                DeviceListEntryView {
                    device_id: device_id->Ok_0,
                    display_name: display_name->Ok_0,
                },
            )
        }
    }

    fn from_json(j: &Json) -> (out: Result<DeviceListEntryDto, String>) {
        let names: Vec<&str> = vec!["device_id", "display_name"];
        assert(views(names@) =~= seq!["device_id"@, "display_name"@]);
        let named = name_items(j, &names, 1);
        let j = match &named {
            Some(n) => n,
            None => j,
        };
        let device_id = match read_text(j, "device_id") {
            Ok(v) => v,
            Err(e) => return Err(e),
        };
        let display_name = match read_maybe_text(j, "display_name") {
            Ok(v) => v,
            Err(e) => return Err(e),
        };
        Ok(DeviceListEntryDto { device_id, display_name })
    }
}

/// A user and the devices of that user.
#[derive(Debug, PartialEq, Eq)]
pub struct DeviceListDto {
    pub user_id: String,
    pub devices: Vec<DeviceListEntryDto>,
}

#[verifier::ext_equal]
pub struct DeviceListView {
    pub user_id: Seq<char>,
    pub devices: Seq<DeviceListEntryView>,
}

impl View for DeviceListDto {
    type V = DeviceListView;

    open spec fn view(&self) -> DeviceListView {
        DeviceListView {
            user_id: self.user_id@,
            devices: views(self.devices@),
        }
    }
}

impl Wire for DeviceListDto {
    open spec fn wire(j: JsonView) -> Result<DeviceListView, Seq<char>> {
        let j = by_name(j, seq!["user_id"@, "devices"@], 2);
        let user_id = text_field(j, "user_id"@);
        let devices = list_field::<DeviceListEntryDto>(j, "devices"@);
        if user_id is Err {
            Err(user_id->Err_0)
        } else if devices is Err {
            Err(devices->Err_0)
        } else {
            Ok(
                DeviceListView {
                    user_id: user_id->Ok_0,
                    devices: devices->Ok_0,
                },
            )
        }
    }

    fn from_json(j: &Json) -> (out: Result<DeviceListDto, String>) {
        let names: Vec<&str> = vec!["user_id", "devices"];
        assert(views(names@) =~= seq!["user_id"@, "devices"@]);
        let named = name_items(j, &names, 2);
        let j = match &named {
            Some(n) => n,
            None => j,
        };
        let user_id = match read_text(j, "user_id") {
            Ok(v) => v,
            Err(e) => return Err(e),
        };
        let devices = match read_list_field::<DeviceListEntryDto>(j, "devices") {
            Ok(v) => v,
            Err(e) => return Err(e),
        };
        Ok(DeviceListDto { user_id, devices })
    }
}

/// What the server sees of the key backup of an account.
#[derive(Debug, PartialEq, Eq)]
pub struct BackupSnapshot {
    pub exists_on_server: Option<bool>,
    pub this_device_uploading: bool,
    pub backup_state: BackupState,
    pub recovery_state: RecoveryState,
}

#[verifier::ext_equal]
pub struct BackupSnapshotView {
    pub exists_on_server: Option<bool>,
    pub this_device_uploading: bool,
    pub backup_state: BackupState,
    pub recovery_state: RecoveryState,
}

impl View for BackupSnapshot {
    type V = BackupSnapshotView;

    open spec fn view(&self) -> BackupSnapshotView {
        BackupSnapshotView {
            exists_on_server: self.exists_on_server,
            this_device_uploading: self.this_device_uploading,
            backup_state: self.backup_state@,
            recovery_state: self.recovery_state@,
        }
    }
}

impl Wire for BackupSnapshot {
    open spec fn wire(j: JsonView) -> Result<BackupSnapshotView, Seq<char>> {
        let j = by_name(j, seq![
            "exists_on_server"@,
            "this_device_uploading"@,
            "backup_state"@,
            "recovery_state"@,
        ], 0);
        let exists_on_server = maybe_bool_field(j, "exists_on_server"@);
        let this_device_uploading = bool_or_false_field(j, "this_device_uploading"@);
        let backup_state = wire_or_default_field::<BackupState>(j, "backup_state"@);
        let recovery_state = wire_or_default_field::<RecoveryState>(j, "recovery_state"@);
        if j.members() is None {
            Err("backup"@)
        } else if exists_on_server is Err {
            Err(exists_on_server->Err_0)
        } else if this_device_uploading is Err {
            Err(this_device_uploading->Err_0)
        } else if backup_state is Err {
            Err(backup_state->Err_0)
        } else if recovery_state is Err {
            Err(recovery_state->Err_0)
        } else {
            Ok(
                BackupSnapshotView {
                    exists_on_server: exists_on_server->Ok_0,
                    this_device_uploading: this_device_uploading->Ok_0,
                    backup_state: backup_state->Ok_0,
                    recovery_state: recovery_state->Ok_0,
                },
            )
        }
    }

    fn from_json(j: &Json) -> (out: Result<BackupSnapshot, String>) {
        let names: Vec<&str> = vec![
            "exists_on_server",
            "this_device_uploading",
            "backup_state",
            "recovery_state",
        ];
        assert(views(names@) =~= seq![
            "exists_on_server"@,
            "this_device_uploading"@,
            "backup_state"@,
            "recovery_state"@,
        ]);
        let named = name_items(j, &names, 0);
        let j = match &named {
            Some(n) => n,
            None => j,
        };
        match j {
            Json::Object(_) => {},
            _ => return Err("backup".to_owned()),
        }
        let exists_on_server = match read_maybe_bool(j, "exists_on_server") {
            Ok(v) => v,
            Err(e) => return Err(e),
        };
        let this_device_uploading = match read_bool_or_false(j, "this_device_uploading") {
            Ok(v) => v,
            Err(e) => return Err(e),
        };
        let backup_state = match read_wire_or_default::<BackupState>(j, "backup_state") {
            Ok(v) => v,
            Err(e) => return Err(e),
        };
        let recovery_state = match read_wire_or_default::<RecoveryState>(j, "recovery_state") {
            Ok(v) => v,
            Err(e) => return Err(e),
        };
        Ok(BackupSnapshot { exists_on_server, this_device_uploading, backup_state, recovery_state })
    }
}

impl WireDefault for BackupSnapshot {
    open spec fn absent() -> BackupSnapshotView {
        BackupSnapshotView {
            exists_on_server: None,
            this_device_uploading: false,
            backup_state: BackupState::Unknown,
            recovery_state: RecoveryState::Unknown,
        }
    }

    fn when_absent() -> (out: BackupSnapshot) {
        BackupSnapshot {
            exists_on_server: None,
            this_device_uploading: false,
            backup_state: BackupState::Unknown,
            recovery_state: RecoveryState::Unknown,
        }
    }
}

impl Default for BackupSnapshot {
    fn default() -> (out: BackupSnapshot)
        ensures
            out@ == BackupSnapshot::absent(),
    {
        BackupSnapshot::when_absent()
    }
}

/// A Matrix account that Axon serves.
#[derive(Debug, PartialEq, Eq)]
pub struct AccountDto {
    pub account_id: u128,
    pub user_id: String,
    pub state: AccountState,
    pub device_id: Option<String>,
    pub verified: Option<bool>,
    /// The key backup. Older servers leave it out.
    pub backup: BackupSnapshot,
}

#[verifier::ext_equal]
pub struct AccountView {
    pub account_id: u128,
    pub user_id: Seq<char>,
    pub state: AccountState,
    pub device_id: Option<Seq<char>>,
    pub verified: Option<bool>,
    pub backup: BackupSnapshotView,
}

impl View for AccountDto {
    type V = AccountView;

    open spec fn view(&self) -> AccountView {
        AccountView {
            account_id: self.account_id,
            user_id: self.user_id@,
            state: self.state@,
            device_id: option_view(self.device_id),
            verified: self.verified,
            backup: self.backup@,
        }
    }
}

impl Wire for AccountDto {
    open spec fn wire(j: JsonView) -> Result<AccountView, Seq<char>> {
        let j = by_name(j, seq![
            "account_id"@,
            "user_id"@,
            "state"@,
            "device_id"@,
            "verified"@,
            "backup"@,
        ], 3);
        let account_id = id_field(j, "account_id"@);
        let user_id = text_field(j, "user_id"@);
        let state = wire_field::<AccountState>(j, "state"@);
        let device_id = maybe_text_field(j, "device_id"@);
        let verified = maybe_bool_field(j, "verified"@);
        let backup = wire_or_default_field::<BackupSnapshot>(j, "backup"@);
        if account_id is Err {
            Err(account_id->Err_0)
        } else if user_id is Err {
            Err(user_id->Err_0)
        } else if state is Err {
            Err(state->Err_0)
        } else if device_id is Err {
            Err(device_id->Err_0)
        } else if verified is Err {
            Err(verified->Err_0)
        } else if backup is Err {
            Err(backup->Err_0)
        } else {
            Ok(
                AccountView {
                    account_id: account_id->Ok_0,
                    user_id: user_id->Ok_0,
                    state: state->Ok_0,
                    device_id: device_id->Ok_0,
                    verified: verified->Ok_0,
                    backup: backup->Ok_0,
                },
            )
        }
    }

    fn from_json(j: &Json) -> (out: Result<AccountDto, String>) {
        let names: Vec<&str> = vec![
            "account_id",
            "user_id",
            "state",
            "device_id",
            "verified",
            "backup",
        ];
        assert(views(names@) =~= seq![
            "account_id"@,
            "user_id"@,
            "state"@,
            "device_id"@,
            "verified"@,
            "backup"@,
        ]);
        let named = name_items(j, &names, 3);
        let j = match &named {
            Some(n) => n,
            None => j,
        };
        let account_id = match read_id(j, "account_id") {
            Ok(v) => v,
            Err(e) => return Err(e),
        };
        let user_id = match read_text(j, "user_id") {
            Ok(v) => v,
            Err(e) => return Err(e),
        };
        let state = match read_wire::<AccountState>(j, "state") {
            Ok(v) => v,
            Err(e) => return Err(e),
        };
        let device_id = match read_maybe_text(j, "device_id") {
            Ok(v) => v,
            Err(e) => return Err(e),
        };
        let verified = match read_maybe_bool(j, "verified") {
            Ok(v) => v,
            Err(e) => return Err(e),
        };
        let backup = match read_wire_or_default::<BackupSnapshot>(j, "backup") {
            Ok(v) => v,
            Err(e) => return Err(e),
        };
        Ok(AccountDto { account_id, user_id, state, device_id, verified, backup })
    }
}

/// The reply to a request to enable the backup: the account and what was done.
#[derive(Debug, PartialEq, Eq)]
pub struct EnableBackupResponse {
    pub account: AccountDto,
    pub backup_action: BackupAction,
}

#[verifier::ext_equal]
pub struct EnableBackupView {
    pub account: AccountView,
    pub backup_action: BackupAction,
}

impl View for EnableBackupResponse {
    type V = EnableBackupView;

    open spec fn view(&self) -> EnableBackupView {
        EnableBackupView { account: self.account@, backup_action: self.backup_action }
    }
}

impl Wire for EnableBackupResponse {
    /// The fields of the account stand beside the action, not under a key.
    open spec fn wire(j: JsonView) -> Result<EnableBackupView, Seq<char>> {
        let account = AccountDto::wire(j);
        let backup_action = wire_field::<BackupAction>(j, "backup_action"@);
        if account is Err {
            Err(account->Err_0)
        } else if backup_action is Err {
            Err(backup_action->Err_0)
        } else {
            Ok(EnableBackupView { account: account->Ok_0, backup_action: backup_action->Ok_0 })
        }
    }

    fn from_json(j: &Json) -> (out: Result<EnableBackupResponse, String>) {
        let account = match AccountDto::from_json(j) {
            Ok(v) => v,
            Err(e) => return Err(e),
        };
        let backup_action = match read_wire::<BackupAction>(j, "backup_action") {
            Ok(v) => v,
            Err(e) => return Err(e),
        };
        Ok(EnableBackupResponse { account, backup_action })
    }
}

/// One member of a room.
#[derive(Debug)]
pub struct MemberDto {
    pub user_id: String,
    pub display_name: Option<String>,
}

#[verifier::ext_equal]
pub struct MemberView {
    pub user_id: Seq<char>,
    pub display_name: Option<Seq<char>>,
}

impl View for MemberDto {
    type V = MemberView;

    open spec fn view(&self) -> MemberView {
        MemberView {
            user_id: self.user_id@,
            display_name: option_view(self.display_name),
        }
    }
}

impl Wire for MemberDto {
    open spec fn wire(j: JsonView) -> Result<MemberView, Seq<char>> {
        let j = by_name(j, seq!["user_id"@, "display_name"@], 1);
        let user_id = text_field(j, "user_id"@);
        let display_name = maybe_text_field(j, "display_name"@);
        if user_id is Err {
            Err(user_id->Err_0)
        } else if display_name is Err {
            Err(display_name->Err_0)
        } else {
            Ok(
                MemberView {
                    user_id: user_id->Ok_0,
                    display_name: display_name->Ok_0,
                },
            )
        }
    }

    fn from_json(j: &Json) -> (out: Result<MemberDto, String>) {
        let names: Vec<&str> = vec!["user_id", "display_name"];
        assert(views(names@) =~= seq!["user_id"@, "display_name"@]);
        let named = name_items(j, &names, 1);
        let j = match &named {
            Some(n) => n,
            None => j,
        };
        let user_id = match read_text(j, "user_id") {
            Ok(v) => v,
            Err(e) => return Err(e),
        };
        let display_name = match read_maybe_text(j, "display_name") {
            Ok(v) => v,
            Err(e) => return Err(e),
        };
        Ok(MemberDto { user_id, display_name })
    }
}

/// A room of an account.
#[derive(Debug)]
pub struct RoomDto {
    pub account_id: u128,
    pub account_user_id: Option<String>,
    pub room_id: String,
    pub name: Option<String>,
    pub topic: Option<String>,
    pub avatar_url: Option<String>,
    pub canonical_alias: Option<String>,
    pub last_activity_ts: i64,
    pub last_event_id: Option<String>,
}

#[verifier::ext_equal]
pub struct RoomView {
    pub account_id: u128,
    pub account_user_id: Option<Seq<char>>,
    pub room_id: Seq<char>,
    pub name: Option<Seq<char>>,
    pub topic: Option<Seq<char>>,
    pub avatar_url: Option<Seq<char>>,
    pub canonical_alias: Option<Seq<char>>,
    pub last_activity_ts: i64,
    pub last_event_id: Option<Seq<char>>,
}

impl View for RoomDto {
    type V = RoomView;

    open spec fn view(&self) -> RoomView {
        RoomView {
            account_id: self.account_id,
            account_user_id: option_view(self.account_user_id),
            room_id: self.room_id@,
            name: option_view(self.name),
            topic: option_view(self.topic),
            avatar_url: option_view(self.avatar_url),
            canonical_alias: option_view(self.canonical_alias),
            last_activity_ts: self.last_activity_ts,
            last_event_id: option_view(self.last_event_id),
        }
    }
}

impl Wire for RoomDto {
    open spec fn wire(j: JsonView) -> Result<RoomView, Seq<char>> {
        let j = by_name(j, seq![
            "account_id"@,
            "account_user_id"@,
            "room_id"@,
            "name"@,
            "topic"@,
            "avatar_url"@,
            "canonical_alias"@,
            "last_activity_ts"@,
            "last_event_id"@,
        ], 9);
        let account_id = id_field(j, "account_id"@);
        let account_user_id = maybe_text_field(j, "account_user_id"@);
        let room_id = text_field(j, "room_id"@);
        let name = maybe_text_field(j, "name"@);
        let topic = maybe_text_field(j, "topic"@);
        let avatar_url = maybe_text_field(j, "avatar_url"@);
        let canonical_alias = maybe_text_field(j, "canonical_alias"@);
        let last_activity_ts = int_field(j, "last_activity_ts"@);
        let last_event_id = maybe_text_field(j, "last_event_id"@);
        if account_id is Err {
            Err(account_id->Err_0)
        } else if account_user_id is Err {
            Err(account_user_id->Err_0)
        } else if room_id is Err {
            Err(room_id->Err_0)
        } else if name is Err {
            Err(name->Err_0)
        } else if topic is Err {
            Err(topic->Err_0)
        } else if avatar_url is Err {
            Err(avatar_url->Err_0)
        } else if canonical_alias is Err {
            Err(canonical_alias->Err_0)
        } else if last_activity_ts is Err {
            Err(last_activity_ts->Err_0)
        } else if last_event_id is Err {
            Err(last_event_id->Err_0)
        } else {
            Ok(
                RoomView {
                    account_id: account_id->Ok_0,
                    account_user_id: account_user_id->Ok_0,
                    room_id: room_id->Ok_0,
                    name: name->Ok_0,
                    topic: topic->Ok_0,
                    avatar_url: avatar_url->Ok_0,
                    canonical_alias: canonical_alias->Ok_0,
                    last_activity_ts: last_activity_ts->Ok_0,
                    last_event_id: last_event_id->Ok_0,
                },
            )
        }
    }

    fn from_json(j: &Json) -> (out: Result<RoomDto, String>) {
        let names: Vec<&str> = vec![
            "account_id",
            "account_user_id",
            "room_id",
            "name",
            "topic",
            "avatar_url",
            "canonical_alias",
            "last_activity_ts",
            "last_event_id",
        ];
        assert(views(names@) =~= seq![
            "account_id"@,
            "account_user_id"@,
            "room_id"@,
            "name"@,
            "topic"@,
            "avatar_url"@,
            "canonical_alias"@,
            "last_activity_ts"@,
            "last_event_id"@,
        ]);
        let named = name_items(j, &names, 9);
        let j = match &named {
            Some(n) => n,
            None => j,
        };
        let account_id = match read_id(j, "account_id") {
            Ok(v) => v,
            Err(e) => return Err(e),
        };
        let account_user_id = match read_maybe_text(j, "account_user_id") {
            Ok(v) => v,
            Err(e) => return Err(e),
        };
        let room_id = match read_text(j, "room_id") {
            Ok(v) => v,
            Err(e) => return Err(e),
        };
        let name = match read_maybe_text(j, "name") {
            Ok(v) => v,
            Err(e) => return Err(e),
        };
        let topic = match read_maybe_text(j, "topic") {
            Ok(v) => v,
            Err(e) => return Err(e),
        };
        let avatar_url = match read_maybe_text(j, "avatar_url") {
            Ok(v) => v,
            Err(e) => return Err(e),
        };
        let canonical_alias = match read_maybe_text(j, "canonical_alias") {
            Ok(v) => v,
            Err(e) => return Err(e),
        };
        let last_activity_ts = match read_int(j, "last_activity_ts") {
            Ok(v) => v,
            Err(e) => return Err(e),
        };
        let last_event_id = match read_maybe_text(j, "last_event_id") {
            Ok(v) => v,
            Err(e) => return Err(e),
        };
        Ok(RoomDto { account_id, account_user_id, room_id, name, topic, avatar_url, canonical_alias, last_activity_ts, last_event_id })
    }
}

/// The title of a room: its name, else its alias, else its id.
pub open spec fn room_title(room: RoomView) -> Seq<char> {
    match room.name {
        Some(n) => n,
        None => match room.canonical_alias {
            Some(a) => a,
            None => room.room_id,
        },
    }
}

impl RoomDto {
    pub fn title(&self) -> (out: &str)
        ensures
            out@ == room_title(self@),
    {
        match &self.name {
            Some(n) => n.as_str(),
            None => match &self.canonical_alias {
                Some(a) => a.as_str(),
                None => self.room_id.as_str(),
            },
        }
    }

    pub fn copy(&self) -> (out: RoomDto)
        ensures
            out@ == self@,
    {
        RoomDto {
            account_id: self.account_id,
            account_user_id: copy_option(&self.account_user_id),
            room_id: self.room_id.clone(),
            name: copy_option(&self.name),
            topic: copy_option(&self.topic),
            avatar_url: copy_option(&self.avatar_url),
            canonical_alias: copy_option(&self.canonical_alias),
            last_activity_ts: self.last_activity_ts,
            last_event_id: copy_option(&self.last_event_id),
        }
    }
}

/// A thread root and the number of its replies.
#[derive(Debug)]
pub struct ThreadSummaryDto {
    pub root_event_id: String,
    pub reply_count: i64,
}

#[verifier::ext_equal]
pub struct ThreadSummaryView {
    pub root_event_id: Seq<char>,
    pub reply_count: i64,
}

impl View for ThreadSummaryDto {
    type V = ThreadSummaryView;

    open spec fn view(&self) -> ThreadSummaryView {
        ThreadSummaryView {
            root_event_id: self.root_event_id@,
            reply_count: self.reply_count,
        }
    }
}

impl Wire for ThreadSummaryDto {
    open spec fn wire(j: JsonView) -> Result<ThreadSummaryView, Seq<char>> {
        let j = by_name(j, seq!["root_event_id"@, "reply_count"@], 2);
        let root_event_id = text_field(j, "root_event_id"@);
        let reply_count = int_field(j, "reply_count"@);
        if root_event_id is Err {
            Err(root_event_id->Err_0)
        } else if reply_count is Err {
            Err(reply_count->Err_0)
        } else {
            Ok(
                ThreadSummaryView {
                    root_event_id: root_event_id->Ok_0,
                    reply_count: reply_count->Ok_0,
                },
            )
        }
    }

    fn from_json(j: &Json) -> (out: Result<ThreadSummaryDto, String>) {
        let names: Vec<&str> = vec!["root_event_id", "reply_count"];
        assert(views(names@) =~= seq!["root_event_id"@, "reply_count"@]);
        let named = name_items(j, &names, 2);
        let j = match &named {
            Some(n) => n,
            None => j,
        };
        let root_event_id = match read_text(j, "root_event_id") {
            Ok(v) => v,
            Err(e) => return Err(e),
        };
        let reply_count = match read_int(j, "reply_count") {
            Ok(v) => v,
            Err(e) => return Err(e),
        };
        Ok(ThreadSummaryDto { root_event_id, reply_count })
    }
}

/// The tally of one reaction on an event.
#[derive(Debug)]
pub struct ReactionTally {
    pub count: i64,
    pub me: bool,
    /// The users that reacted, each once. A long list is cut off, so the count is
    /// kept beside it.
    pub senders: Vec<String>,
    /// The account's own reaction events, which a withdrawal redacts.
    pub my_event_ids: Vec<String>,
}

#[verifier::ext_equal]
pub struct TallyView {
    pub count: i64,
    pub me: bool,
    pub senders: Seq<Seq<char>>,
    pub my_event_ids: Seq<Seq<char>>,
}

impl View for ReactionTally {
    type V = TallyView;

    open spec fn view(&self) -> TallyView {
        TallyView {
            count: self.count,
            me: self.me,
            senders: views(self.senders@),
            my_event_ids: views(self.my_event_ids@),
        }
    }
}

impl Wire for ReactionTally {
    open spec fn wire(j: JsonView) -> Result<TallyView, Seq<char>> {
        let j = by_name(j, seq!["count"@, "me"@, "senders"@, "my_event_ids"@], 2);
        let count = int_field(j, "count"@);
        let me = bool_field(j, "me"@);
        let senders = texts_or_empty_field(j, "senders"@);
        let my_event_ids = texts_or_empty_field(j, "my_event_ids"@);
        if count is Err {
            Err(count->Err_0)
        } else if me is Err {
            Err(me->Err_0)
        } else if senders is Err {
            Err(senders->Err_0)
        } else if my_event_ids is Err {
            Err(my_event_ids->Err_0)
        } else {
            Ok(
                TallyView {
                    count: count->Ok_0,
                    me: me->Ok_0,
                    senders: senders->Ok_0,
                    my_event_ids: my_event_ids->Ok_0,
                },
            )
        }
    }

    fn from_json(j: &Json) -> (out: Result<ReactionTally, String>) {
        let names: Vec<&str> = vec!["count", "me", "senders", "my_event_ids"];
        assert(views(names@) =~= seq!["count"@, "me"@, "senders"@, "my_event_ids"@]);
        let named = name_items(j, &names, 2);
        let j = match &named {
            Some(n) => n,
            None => j,
        };
        let count = match read_int(j, "count") {
            Ok(v) => v,
            Err(e) => return Err(e),
        };
        let me = match read_bool(j, "me") {
            Ok(v) => v,
            Err(e) => return Err(e),
        };
        let senders = match read_texts_or_empty(j, "senders") {
            Ok(v) => v,
            Err(e) => return Err(e),
        };
        let my_event_ids = match read_texts_or_empty(j, "my_event_ids") {
            Ok(v) => v,
            Err(e) => return Err(e),
        };
        Ok(ReactionTally { count, me, senders, my_event_ids })
    }
}

/// The payload of a `device_state.changed` frame: the device that wrote, the
/// namespace and the written entries. A null says that the key was deleted.
#[derive(Debug)]
pub struct DeviceStateChangedDto {
    pub device_id: u128,
    pub namespace: String,
    pub entries: KeyedMap<String, Json>,
}

#[verifier::ext_equal]
pub struct DeviceStateChangedView {
    pub device_id: u128,
    pub namespace: Seq<char>,
    pub entries: Map<Seq<char>, JsonView>,
}

impl View for DeviceStateChangedDto {
    type V = DeviceStateChangedView;

    open spec fn view(&self) -> DeviceStateChangedView {
        DeviceStateChangedView {
            device_id: self.device_id,
            namespace: self.namespace@,
            entries: map_views(self.entries@),
        }
    }
}

impl Wire for DeviceStateChangedDto {
    open spec fn wire(j: JsonView) -> Result<DeviceStateChangedView, Seq<char>> {
        let j = by_name(j, seq!["device_id"@, "namespace"@, "entries"@], 2);
        let device_id = id_field(j, "device_id"@);
        let namespace = text_field(j, "namespace"@);
        let entries = map_or_empty_field::<Json>(j, "entries"@);
        if device_id is Err {
            Err(device_id->Err_0)
        } else if namespace is Err {
            Err(namespace->Err_0)
        } else if entries is Err {
            Err(entries->Err_0)
        } else {
            Ok(
                DeviceStateChangedView {
                    device_id: device_id->Ok_0,
                    namespace: namespace->Ok_0,
                    entries: entries->Ok_0,
                },
            )
        }
    }

    fn from_json(j: &Json) -> (out: Result<DeviceStateChangedDto, String>) {
        let names: Vec<&str> = vec!["device_id", "namespace", "entries"];
        assert(views(names@) =~= seq!["device_id"@, "namespace"@, "entries"@]);
        let named = name_items(j, &names, 2);
        let j = match &named {
            Some(n) => n,
            None => j,
        };
        let device_id = match read_id(j, "device_id") {
            Ok(v) => v,
            Err(e) => return Err(e),
        };
        let namespace = match read_text(j, "namespace") {
            Ok(v) => v,
            Err(e) => return Err(e),
        };
        let entries = match read_map_or_empty::<Json>(j, "entries") {
            Ok(v) => v,
            Err(e) => return Err(e),
        };
        Ok(DeviceStateChangedDto { device_id, namespace, entries })
    }
}

/// One entry of the merged state of the devices.
#[derive(Debug)]
pub struct DeviceStateEntryDto {
    pub value: Json,
}

#[verifier::ext_equal]
pub struct DeviceStateEntryView {
    pub value: JsonView,
}

impl View for DeviceStateEntryDto {
    type V = DeviceStateEntryView;

    open spec fn view(&self) -> DeviceStateEntryView {
        DeviceStateEntryView {
            value: self.value@,
        }
    }
}

impl Wire for DeviceStateEntryDto {
    open spec fn wire(j: JsonView) -> Result<DeviceStateEntryView, Seq<char>> {
        let j = by_name(j, seq!["value"@], 1);
        let value = wire_field::<Json>(j, "value"@);
        if value is Err {
            Err(value->Err_0)
        } else {
            Ok(
                DeviceStateEntryView {
                    value: value->Ok_0,
                },
            )
        }
    }

    fn from_json(j: &Json) -> (out: Result<DeviceStateEntryDto, String>) {
        let names: Vec<&str> = vec!["value"];
        assert(views(names@) =~= seq!["value"@]);
        let named = name_items(j, &names, 1);
        let j = match &named {
            Some(n) => n,
            None => j,
        };
        let value = match read_wire::<Json>(j, "value") {
            Ok(v) => v,
            Err(e) => return Err(e),
        };
        Ok(DeviceStateEntryDto { value })
    }
}

/// One namespace of the merged state of the devices of an account.
#[derive(Debug)]
pub struct DeviceStateDto {
    pub entries: KeyedMap<String, DeviceStateEntryDto>,
}

#[verifier::ext_equal]
pub struct DeviceStateView {
    pub entries: Map<Seq<char>, DeviceStateEntryView>,
}

impl View for DeviceStateDto {
    type V = DeviceStateView;

    open spec fn view(&self) -> DeviceStateView {
        DeviceStateView {
            entries: map_views(self.entries@),
        }
    }
}

impl Wire for DeviceStateDto {
    open spec fn wire(j: JsonView) -> Result<DeviceStateView, Seq<char>> {
        let j = by_name(j, seq!["entries"@], 0);
        let entries = map_or_empty_field::<DeviceStateEntryDto>(j, "entries"@);
        if j.members() is None {
            Err("data"@)
        } else if entries is Err {
            Err(entries->Err_0)
        } else {
            Ok(
                DeviceStateView {
                    entries: entries->Ok_0,
                },
            )
        }
    }

    fn from_json(j: &Json) -> (out: Result<DeviceStateDto, String>) {
        let names: Vec<&str> = vec!["entries"];
        assert(views(names@) =~= seq!["entries"@]);
        let named = name_items(j, &names, 0);
        let j = match &named {
            Some(n) => n,
            None => j,
        };
        match j {
            Json::Object(_) => {},
            _ => return Err("data".to_owned()),
        }
        let entries = match read_map_or_empty::<DeviceStateEntryDto>(j, "entries") {
            Ok(v) => v,
            Err(e) => return Err(e),
        };
        Ok(DeviceStateDto { entries })
    }
}

/// One event of a room.
#[derive(Debug)]
pub struct EventDto {
    pub account_id: u128,
    pub event_id: String,
    pub room_id: String,
    pub sender: String,
    pub state_key: Option<String>,
    /// The order in which the account took events in. It must be there: a made-up
    /// zero would win the first comparison of a session and lose every later one.
    pub arrival_order: i64,
    /// The time that the sender stamped, in milliseconds: the display order.
    pub origin_ts: i64,
    pub event_type: String,
    pub content: Option<Json>,
    pub body: Option<String>,
    pub relates_to: Option<Json>,
    pub redacted: bool,
    pub redaction_event_id: Option<String>,
    /// The reactions by key, as the server tallied them.
    pub reactions: Option<KeyedMap<String, ReactionTally>>,
    /// The trust in the sending device when the event was decrypted.
    pub sender_trust: Option<String>,
}

#[verifier::ext_equal]
pub struct EventView {
    pub account_id: u128,
    pub event_id: Seq<char>,
    pub room_id: Seq<char>,
    pub sender: Seq<char>,
    pub state_key: Option<Seq<char>>,
    pub arrival_order: i64,
    pub origin_ts: i64,
    pub event_type: Seq<char>,
    pub content: Option<JsonView>,
    pub body: Option<Seq<char>>,
    pub relates_to: Option<JsonView>,
    pub redacted: bool,
    pub redaction_event_id: Option<Seq<char>>,
    pub reactions: Option<Map<Seq<char>, TallyView>>,
    pub sender_trust: Option<Seq<char>>,
}

impl View for EventDto {
    type V = EventView;

    open spec fn view(&self) -> EventView {
        EventView {
            account_id: self.account_id,
            event_id: self.event_id@,
            room_id: self.room_id@,
            sender: self.sender@,
            state_key: option_view(self.state_key),
            arrival_order: self.arrival_order,
            origin_ts: self.origin_ts,
            event_type: self.event_type@,
            content: json_option_view(self.content),
            body: option_view(self.body),
            relates_to: json_option_view(self.relates_to),
            redacted: self.redacted,
            redaction_event_id: option_view(self.redaction_event_id),
            reactions: map_option_view(self.reactions),
            sender_trust: option_view(self.sender_trust),
        }
    }
}

impl Wire for EventDto {
    open spec fn wire(j: JsonView) -> Result<EventView, Seq<char>> {
        let j = by_name(j, seq![
            "account_id"@,
            "event_id"@,
            "room_id"@,
            "sender"@,
            "state_key"@,
            "arrival_order"@,
            "origin_ts"@,
            "type"@,
            "content"@,
            "body"@,
            "relates_to"@,
            "redacted"@,
            "redaction_event_id"@,
            "reactions"@,
            "sender_trust"@,
        ], 13);
        let account_id = id_field(j, "account_id"@);
        let event_id = text_field(j, "event_id"@);
        let room_id = text_field(j, "room_id"@);
        let sender = text_field(j, "sender"@);
        let state_key = maybe_text_field(j, "state_key"@);
        let arrival_order = int_field(j, "arrival_order"@);
        let origin_ts = int_field(j, "origin_ts"@);
        let event_type = text_field(j, "type"@);
        let body = maybe_text_field(j, "body"@);
        let redacted = bool_field(j, "redacted"@);
        let redaction_event_id = maybe_text_field(j, "redaction_event_id"@);
        let reactions = maybe_map_field::<ReactionTally>(j, "reactions"@);
        let sender_trust = maybe_text_field(j, "sender_trust"@);
        if account_id is Err {
            Err(account_id->Err_0)
        } else if event_id is Err {
            Err(event_id->Err_0)
        } else if room_id is Err {
            Err(room_id->Err_0)
        } else if sender is Err {
            Err(sender->Err_0)
        } else if state_key is Err {
            Err(state_key->Err_0)
        } else if arrival_order is Err {
            Err(arrival_order->Err_0)
        } else if origin_ts is Err {
            Err(origin_ts->Err_0)
        } else if event_type is Err {
            Err(event_type->Err_0)
        } else if body is Err {
            Err(body->Err_0)
        } else if redacted is Err {
            Err(redacted->Err_0)
        } else if redaction_event_id is Err {
            Err(redaction_event_id->Err_0)
        } else if reactions is Err {
            Err(reactions->Err_0)
        } else if sender_trust is Err {
            Err(sender_trust->Err_0)
        } else {
            Ok(
                EventView {
                    account_id: account_id->Ok_0,
                    event_id: event_id->Ok_0,
                    room_id: room_id->Ok_0,
                    sender: sender->Ok_0,
                    state_key: state_key->Ok_0,
                    arrival_order: arrival_order->Ok_0,
                    origin_ts: origin_ts->Ok_0,
                    event_type: event_type->Ok_0,
                    content: j.present("content"@),
                    body: body->Ok_0,
                    relates_to: j.present("relates_to"@),
                    redacted: redacted->Ok_0,
                    redaction_event_id: redaction_event_id->Ok_0,
                    reactions: reactions->Ok_0,
                    sender_trust: sender_trust->Ok_0,
                },
            )
        }
    }

    fn from_json(j: &Json) -> (out: Result<EventDto, String>) {
        let names: Vec<&str> = vec![
            "account_id",
            "event_id",
            "room_id",
            "sender",
            "state_key",
            "arrival_order",
            "origin_ts",
            "type",
            "content",
            "body",
            "relates_to",
            "redacted",
            "redaction_event_id",
            "reactions",
            "sender_trust",
        ];
        assert(views(names@) =~= seq![
            "account_id"@,
            "event_id"@,
            "room_id"@,
            "sender"@,
            "state_key"@,
            "arrival_order"@,
            "origin_ts"@,
            "type"@,
            "content"@,
            "body"@,
            "relates_to"@,
            "redacted"@,
            "redaction_event_id"@,
            "reactions"@,
            "sender_trust"@,
        ]);
        let named = name_items(j, &names, 13);
        let j = match &named {
            Some(n) => n,
            None => j,
        };
        let account_id = match read_id(j, "account_id") {
            Ok(v) => v,
            Err(e) => return Err(e),
        };
        let event_id = match read_text(j, "event_id") {
            Ok(v) => v,
            Err(e) => return Err(e),
        };
        let room_id = match read_text(j, "room_id") {
            Ok(v) => v,
            Err(e) => return Err(e),
        };
        let sender = match read_text(j, "sender") {
            Ok(v) => v,
            Err(e) => return Err(e),
        };
        let state_key = match read_maybe_text(j, "state_key") {
            Ok(v) => v,
            Err(e) => return Err(e),
        };
        let arrival_order = match read_int(j, "arrival_order") {
            Ok(v) => v,
            Err(e) => return Err(e),
        };
        let origin_ts = match read_int(j, "origin_ts") {
            Ok(v) => v,
            Err(e) => return Err(e),
        };
        let event_type = match read_text(j, "type") {
            Ok(v) => v,
            Err(e) => return Err(e),
        };
        let content = read_maybe_json(j, "content");
        let body = match read_maybe_text(j, "body") {
            Ok(v) => v,
            Err(e) => return Err(e),
        };
        let relates_to = read_maybe_json(j, "relates_to");
        let redacted = match read_bool(j, "redacted") {
            Ok(v) => v,
            Err(e) => return Err(e),
        };
        let redaction_event_id = match read_maybe_text(j, "redaction_event_id") {
            Ok(v) => v,
            Err(e) => return Err(e),
        };
        let reactions = match read_maybe_map::<ReactionTally>(j, "reactions") {
            Ok(v) => v,
            Err(e) => return Err(e),
        };
        let sender_trust = match read_maybe_text(j, "sender_trust") {
            Ok(v) => v,
            Err(e) => return Err(e),
        };
        Ok(EventDto { account_id, event_id, room_id, sender, state_key, arrival_order, origin_ts, event_type, content, body, relates_to, redacted, redaction_event_id, reactions, sender_trust })
    }
}

/// A page of a timeline, newest event first.
#[derive(Debug)]
pub struct TimelinePage {
    pub events: Vec<EventDto>,
    pub next_cursor: Option<String>,
}

#[verifier::ext_equal]
pub struct TimelinePageView {
    pub events: Seq<EventView>,
    pub next_cursor: Option<Seq<char>>,
}

impl View for TimelinePage {
    type V = TimelinePageView;

    open spec fn view(&self) -> TimelinePageView {
        TimelinePageView {
            events: views(self.events@),
            next_cursor: option_view(self.next_cursor),
        }
    }
}

impl Wire for TimelinePage {
    open spec fn wire(j: JsonView) -> Result<TimelinePageView, Seq<char>> {
        let j = by_name(j, seq!["events"@, "next_cursor"@], 2);
        let events = list_field::<EventDto>(j, "events"@);
        let next_cursor = maybe_text_field(j, "next_cursor"@);
        if events is Err {
            Err(events->Err_0)
        } else if next_cursor is Err {
            Err(next_cursor->Err_0)
        } else {
            Ok(
                TimelinePageView {
                    events: events->Ok_0,
                    next_cursor: next_cursor->Ok_0,
                },
            )
        }
    }

    fn from_json(j: &Json) -> (out: Result<TimelinePage, String>) {
        let names: Vec<&str> = vec!["events", "next_cursor"];
        assert(views(names@) =~= seq!["events"@, "next_cursor"@]);
        let named = name_items(j, &names, 2);
        let j = match &named {
            Some(n) => n,
            None => j,
        };
        let events = match read_list_field::<EventDto>(j, "events") {
            Ok(v) => v,
            Err(e) => return Err(e),
        };
        let next_cursor = match read_maybe_text(j, "next_cursor") {
            Ok(v) => v,
            Err(e) => return Err(e),
        };
        Ok(TimelinePage { events, next_cursor })
    }
}

/// An event that a search found. How well it fits is kept as the server wrote it.
#[derive(Debug)]
pub struct SearchResultDto {
    pub event: EventDto,
    pub score: JsonNumber,
}

#[verifier::ext_equal]
pub struct SearchResultView {
    pub event: EventView,
    pub score: JsonNumberView,
}

impl View for SearchResultDto {
    type V = SearchResultView;

    open spec fn view(&self) -> SearchResultView {
        SearchResultView { event: self.event@, score: self.score@ }
    }
}

impl Wire for SearchResultDto {
    open spec fn wire(j: JsonView) -> Result<SearchResultView, Seq<char>> {
        let j = by_name(j, seq!["event"@, "score"@], 2);
        let event = wire_field::<EventDto>(j, "event"@);
        let score = number_field(j, "score"@);
        if event is Err {
            Err(event->Err_0)
        } else if score is Err {
            Err(score->Err_0)
        } else {
            Ok(SearchResultView { event: event->Ok_0, score: score->Ok_0 })
        }
    }

    fn from_json(j: &Json) -> (out: Result<SearchResultDto, String>) {
        let names: Vec<&str> = vec!["event", "score"];
        assert(views(names@) =~= seq!["event"@, "score"@]);
        let named = name_items(j, &names, 2);
        let j = match &named {
            Some(n) => n,
            None => j,
        };
        let event = match read_wire::<EventDto>(j, "event") {
            Ok(v) => v,
            Err(e) => return Err(e),
        };
        let score = match read_number(j, "score") {
            Ok(v) => v,
            Err(e) => return Err(e),
        };
        Ok(SearchResultDto { event, score })
    }
}

/// A page of what a search found.
#[derive(Debug)]
pub struct SearchPage {
    pub results: Vec<SearchResultDto>,
    pub total: usize,
    pub next_cursor: Option<String>,
}

#[verifier::ext_equal]
pub struct SearchPageView {
    pub results: Seq<SearchResultView>,
    pub total: usize,
    pub next_cursor: Option<Seq<char>>,
}

impl View for SearchPage {
    type V = SearchPageView;

    open spec fn view(&self) -> SearchPageView {
        SearchPageView {
            results: views(self.results@),
            total: self.total,
            next_cursor: option_view(self.next_cursor),
        }
    }
}

impl Wire for SearchPage {
    open spec fn wire(j: JsonView) -> Result<SearchPageView, Seq<char>> {
        let j = by_name(j, seq!["results"@, "total"@, "next_cursor"@], 3);
        let results = list_field::<SearchResultDto>(j, "results"@);
        let total = count_field(j, "total"@);
        let next_cursor = maybe_text_field(j, "next_cursor"@);
        if results is Err {
            Err(results->Err_0)
        } else if total is Err {
            Err(total->Err_0)
        } else if next_cursor is Err {
            Err(next_cursor->Err_0)
        } else {
            Ok(
                SearchPageView {
                    results: results->Ok_0,
                    total: total->Ok_0,
                    next_cursor: next_cursor->Ok_0,
                },
            )
        }
    }

    fn from_json(j: &Json) -> (out: Result<SearchPage, String>) {
        let names: Vec<&str> = vec!["results", "total", "next_cursor"];
        assert(views(names@) =~= seq!["results"@, "total"@, "next_cursor"@]);
        let named = name_items(j, &names, 3);
        let j = match &named {
            Some(n) => n,
            None => j,
        };
        let results = match read_list_field::<SearchResultDto>(j, "results") {
            Ok(v) => v,
            Err(e) => return Err(e),
        };
        let total: usize = match read_count(j, "total") {
            Ok(v) => v,
            Err(e) => return Err(e),
        };
        let next_cursor = match read_maybe_text(j, "next_cursor") {
            Ok(v) => v,
            Err(e) => return Err(e),
        };
        Ok(SearchPage { results, total, next_cursor })
    }
}

/// The envelope of a reply: the value under `data`.
#[derive(Debug)]
pub struct ApiResponse<T> {
    pub data: T,
}

/// The value that a reply carries, or what is said of a text that carries none.
///
/// The readers that `serde_json` is given for the types decide whether a text is taken:
/// they also refuse one that repeats a field, and say where the fault is. `refused`
/// holds what they say where they do. Of a text that they take nothing is said.
pub open spec fn response_of<T: Wire>(text: Seq<char>, refused: Option<Seq<char>>) -> Result<
    T::V,
    Seq<char>,
> {
    match taken(text, refused) {
        Err(said) => Err(said),
        Ok(j) => match wire_field::<T>(by_name(j, seq!["data"@], 1), "data"@) {
            Ok(v) => Ok(v),
            Err(_) => Err(Seq::empty()),
        },
    }
}

/// The list that a reply carries, or what is said of a text that carries none.
pub open spec fn list_response_of<T: Wire>(
    text: Seq<char>,
    refused: Option<Seq<char>>,
) -> Result<Seq<T::V>, Seq<char>> {
    match taken(text, refused) {
        Err(said) => Err(said),
        Ok(j) => match list_field::<T>(by_name(j, seq!["data"@], 1), "data"@) {
            Ok(v) => Ok(v),
            Err(_) => Err(Seq::empty()),
        },
    }
}

/// The JSON of a text that is taken, or what `serde_json` says of one that is not.
pub open spec fn taken(text: Seq<char>, refused: Option<Seq<char>>) -> Result<JsonView, Seq<char>> {
    match refused {
        Some(said) => Err(said),
        None => parsed_json(text),
    }
}

pub fn take_json(text: &str, refused: Option<&str>) -> (out: Result<Json, String>)
    ensures
        decoded(out) == taken(text@, option_str_view(refused)),
{
    match refused {
        Some(said) => Err(said.to_owned()),
        None => read_json(text),
    }
}

/// What is said of a text that is taken and does not fit: nothing.
pub fn no_words() -> (out: String)
    ensures
        out@ == Seq::<char>::empty(),
{
    let nothing = String::new();
    assert(nothing@ =~= Seq::<char>::empty());
    nothing
}

/// The value under `data`, in an object or a list that stands for one.
fn read_data<T: Wire>(j: &Json) -> (out: Result<T, String>)
    ensures
        decoded(out) == wire_field::<T>(by_name(j@, seq!["data"@], 1), "data"@),
{
    let names: Vec<&str> = vec!["data"];
    assert(views(names@) =~= seq!["data"@]);
    let named = name_items(j, &names, 1);
    let j = match &named {
        Some(n) => n,
        None => j,
    };
    read_wire::<T>(j, "data")
}

/// The list under `data`, in an object or a list that stands for one.
fn read_data_list<T: Wire>(j: &Json) -> (out: Result<Vec<T>, String>)
    ensures
        decoded_list(out) == list_field::<T>(by_name(j@, seq!["data"@], 1), "data"@),
{
    let names: Vec<&str> = vec!["data"];
    assert(views(names@) =~= seq!["data"@]);
    let named = name_items(j, &names, 1);
    let j = match &named {
        Some(n) => n,
        None => j,
    };
    read_list_field::<T>(j, "data")
}

impl<T: Wire> ApiResponse<T> {
    pub fn read(text: &str, refused: Option<&str>) -> (out: Result<ApiResponse<T>, String>)
        ensures
            response_of::<T>(text@, option_str_view(refused)) == match out {
                Ok(r) => Ok::<T::V, Seq<char>>(r.data@),
                Err(e) => Err::<T::V, Seq<char>>(e@),
            },
    {
        match take_json(text, refused) {
            Err(said) => Err(said),
            Ok(j) => match read_data::<T>(&j) {
                Ok(data) => Ok(ApiResponse { data }),
                Err(_) => Err(no_words()),
            },
        }
    }

    pub fn read_list(text: &str, refused: Option<&str>) -> (out: Result<
        ApiResponse<Vec<T>>,
        String,
    >)
        ensures
            list_response_of::<T>(text@, option_str_view(refused)) == match out {
                Ok(r) => Ok::<Seq<T::V>, Seq<char>>(views(r.data@)),
                Err(e) => Err::<Seq<T::V>, Seq<char>>(e@),
            },
    {
        match take_json(text, refused) {
            Err(said) => Err(said),
            Ok(j) => match read_data_list::<T>(&j) {
                Ok(data) => Ok(ApiResponse { data }),
                Err(_) => Err(no_words()),
            },
        }
    }
}

} // verus!
