//! The orchestrator: one core owning the settings, the store, the monitor
//! lifecycle and the event channel, exposing the whole operation surface.
//! The background thread that services platform notifications lives in the
//! application layer; every decision it takes comes from `monitor_step`,
//! and every effect goes through the verified operations here.

use vstd::prelude::*;
use crate::capture::RawSnapshot;
use crate::capture::capture_ok;
use crate::capture::capture_snapshot;
use crate::events::ClipboardEvent;
use crate::events::EventBus;
use crate::model::ClipboardItem;
use crate::model::ItemModel;
use crate::model::SearchQuery;
use crate::model::Statistics;
use crate::model::StoreError;
use crate::model::ExportFormat;
use crate::model::valid_item;
use crate::settings::AppSettings;
use crate::settings::SettingsModel;
use crate::store::Database;
use crate::store::cleaned;
use crate::store::contains_id;
use crate::store::drop_tags;
use crate::store::idx_of;
use crate::store::insert_sorted;
use crate::store::merge_tags;
use crate::store::query_results;
use crate::store::remove_id;
use crate::store::saved;
use crate::store::with_favorite;
use crate::store::with_pinned;
use crate::store::with_tags;
use crate::sys::fresh_id;
use crate::sys::now_ts;

verus! {

#[derive(Clone, Copy, Debug, PartialEq, Eq, Structural)]
pub enum MonitorState {
    Idle,
    Running,
    Stopped,
}

/// The monitor lifecycle: `Idle` until the first start, `Running` while
/// the background listener should service notifications, `Stopped` after a
/// cooperative stop.  A stopped (or idle) monitor may be started again.
pub struct ClipboardMonitor {
    state: MonitorState,
}

impl ClipboardMonitor {
    pub closed spec fn state(&self) -> MonitorState {
        self.state
    }

    pub fn new() -> (r: ClipboardMonitor)
        ensures
            r.state() == MonitorState::Idle,
    {
        ClipboardMonitor { state: MonitorState::Idle }
    }

    /// Requests the listener to run.  Restarting after a stop is
    /// permitted.
    pub fn start(&mut self) -> (r: Result<(), StoreError>)
        ensures
            r is Ok,
            final(self).state() == MonitorState::Running,
    {
        self.state = MonitorState::Running;
        Ok(())
    }

    /// Raises the cooperative stop flag.  Stopping a monitor that was
    /// never started is a safe no-op.
    pub fn stop(&mut self) -> (r: Result<(), StoreError>)
        ensures
            r is Ok,
            old(self).state() == MonitorState::Running ==> final(self).state()
                == MonitorState::Stopped,
            old(self).state() != MonitorState::Running ==> final(self).state() == old(
                self,
            ).state(),
    {
        if matches!(self.state, MonitorState::Running) {
            self.state = MonitorState::Stopped;
        }
        Ok(())
    }

    /// Whether the background loop should keep servicing notifications.
    pub fn is_running(&self) -> (r: bool)
        ensures
            r == (self.state() == MonitorState::Running),
    {
        matches!(self.state, MonitorState::Running)
    }
}

/// What the background loop does next: leave, wait one poll interval, drop
/// a failed capture, or store a captured entry.
#[derive(Debug)]
pub enum MonitorStep {
    Exit,
    Wait,
    Skip,
    Store(ClipboardItem),
}

/// One decision of the notification-service loop.  The loop exits exactly
/// when the stop flag was observed; with no pending notification it waits;
/// a pending notification is captured, and a capture failure is dropped
/// without stopping the loop.
pub fn monitor_step(
    running: bool,
    notification: Option<RawSnapshot>,
    settings: &AppSettings,
    id: u128,
    now: i64,
    source_app: Option<String>,
    source_window: Option<String>,
) -> (r: MonitorStep)
    ensures
        (r is Exit) <==> !running,
        running && notification is None ==> r is Wait,
        running && notification is Some ==> (r is Store || r is Skip),
        match r {
            MonitorStep::Store(item) => valid_item(item@) && item@.id == id && item@.timestamp
                == now,
            _ => true,
        },
        match notification {
            Some(sn) => running ==> (match r {
                MonitorStep::Store(item) => capture_ok(
                    sn@,
                    settings@.compress_images,
                    item@.content,
                    item@.preview_image,
                ),
                _ => true,
            }),
            None => true,
        },
        match notification {
            Some(sn) => running && (sn@.text is Some || (sn@.text is None && sn@.image is None
                && (sn@.files is Some || sn@.html is Some)) || (sn@.text is None
                && sn@.image is Some && crate::capture::image_capture_ok(
                sn@.image->0,
                settings@.compress_images,
            ))) ==> r is Store,
            None => true,
        },
{
    if !running {
        return MonitorStep::Exit;
    }
    match notification {
        None => MonitorStep::Wait,
        Some(snapshot) => {
            match capture_snapshot(snapshot, settings, id, now, source_app, source_window) {
                Ok(item) => MonitorStep::Store(item),
                Err(_) => MonitorStep::Skip,
            }
        },
    }
}

/// One notification went through the whole pipeline: some well-formed
/// entry was captured from the snapshot under the pre-state's
/// image-compression setting, saved under the near-duplicate rule, and
/// published as an added-entry event.
pub open spec fn pipeline_saved(
    pre: ClipboardCore,
    post: ClipboardCore,
    snap: crate::capture::SnapshotModel,
) -> bool {
    exists|m: ItemModel, t: i64|
        {
            &&& valid_item(m)
            &&& capture_ok(snap, pre.settings_model().compress_images, m.content, m.preview_image)
            &&& post.entries() == #[trigger] saved(pre.entries(), m, t)
            &&& post.event_log() == pre.event_log().push(crate::events::EventModel::ItemAdded(m))
        }
}

/// The single entry point wiring the settings, the store, the monitor and
/// the event channel.
pub struct ClipboardCore {
    settings: AppSettings,
    database: Database,
    monitor: ClipboardMonitor,
    events: EventBus,
}

impl ClipboardCore {
    pub closed spec fn entries(&self) -> Seq<ItemModel> {
        self.database@
    }

    pub closed spec fn settings_model(&self) -> SettingsModel {
        self.settings@
    }

    pub closed spec fn monitor_state(&self) -> MonitorState {
        self.monitor.state()
    }

    /// The domain events this core has published, oldest first.
    pub closed spec fn event_log(&self) -> Seq<crate::events::EventModel> {
        self.events.log()
    }

    pub open spec fn inv(&self) -> bool {
        &&& crate::store::ids_unique(self.entries())
        &&& crate::store::sorted_newest_first(self.entries())
        &&& crate::store::all_valid(self.entries())
        &&& self.entries().len() <= 0xFFFF_FFFF
    }

    /// A fresh core: the given settings, an empty store, an idle monitor,
    /// a fresh event channel.  The application layer loads persisted
    /// settings and entries and hands them in.
    pub fn new(settings: AppSettings) -> (r: ClipboardCore)
        ensures
            r.inv(),
            r.entries() == Seq::<ItemModel>::empty(),
            r.settings_model() == settings@,
            r.monitor_state() == MonitorState::Idle,
            r.event_log() == Seq::<crate::events::EventModel>::empty(),
    {
        let r = ClipboardCore {
            settings,
            database: Database::new(),
            monitor: ClipboardMonitor::new(),
            events: EventBus::new(),
        };
        r
    }

    /// Marks the monitor running; the application layer spawns the
    /// listener thread that drives `monitor_step`.
    pub fn start(&mut self) -> (r: Result<(), StoreError>)
        requires
            old(self).inv(),
        ensures
            r is Ok,
            final(self).inv(),
            final(self).monitor_state() == MonitorState::Running,
            final(self).entries() == old(self).entries(),
            final(self).settings_model() == old(self).settings_model(),
    {
        self.monitor.start()
    }

    /// Stops the monitor cooperatively and runs one retention cleanup pass
    /// as the final action.  Stopping a core whose monitor never ran is a
    /// safe no-op apart from the cleanup.
    pub fn stop(&mut self) -> (r: Result<(), StoreError>)
        requires
            old(self).inv(),
        ensures
            r is Ok,
            final(self).inv(),
            old(self).monitor_state() == MonitorState::Running ==> final(self).monitor_state()
                == MonitorState::Stopped,
            old(self).monitor_state() != MonitorState::Running ==> final(self).monitor_state()
                == old(self).monitor_state(),
            final(self).settings_model() == old(self).settings_model(),
            exists|t: i64|
                final(self).entries() == #[trigger] cleaned(
                    old(self).entries(),
                    t,
                    old(self).settings_model().keep_days,
                ),
    {
        let res = self.monitor.stop();
        let ghost e0 = self.entries();
        let ghost kd = self.settings_model().keep_days;
        let _deleted = self.cleanup_old_items();
        proof {
            let t = choose|t: i64| self.entries() == #[trigger] cleaned(e0, t, kd as u32);
            assert(self.entries() == cleaned(old(self).entries(), t, old(
                self,
            ).settings_model().keep_days));
        }
        res
    }

    /// Captures one clipboard notification end to end: decode, save under
    /// the near-duplicate rule, publish the added entry.  Failures are
    /// absorbed: they never stop the caller's loop.  Returns whether the
    /// capture succeeded and the store accepted the save; a save absorbed
    /// by the near-duplicate rule also counts, and is still published.
    pub fn handle_notification(
        &mut self,
        snapshot: RawSnapshot,
        source_app: Option<String>,
        source_window: Option<String>,
    ) -> (r: bool)
        requires
            old(self).inv(),
        ensures
            final(self).inv(),
            final(self).settings_model() == old(self).settings_model(),
            final(self).monitor_state() == old(self).monitor_state(),
            r ==> pipeline_saved(*old(self), *final(self), snapshot@),
            !r ==> final(self).entries() == old(self).entries() && final(self).event_log() == old(
                self,
            ).event_log(),
            old(self).entries().len() < 0xFFFF_FFFF && (snapshot@.text is Some || (
            snapshot@.text is None && snapshot@.image is None && (snapshot@.files is Some
                || snapshot@.html is Some))) ==> r,
            old(self).entries().len() < 0xFFFF_FFFF && snapshot@.text is None
                && snapshot@.image is Some && crate::capture::image_capture_ok(
                snapshot@.image->0,
                old(self).settings_model().compress_images,
            ) ==> r,
    {
        let id = fresh_id();
        let now = now_ts();
        let item = match capture_snapshot(
            snapshot,
            &self.settings,
            id,
            now,
            source_app,
            source_window,
        ) {
            Ok(item) => item,
            Err(_) => {
                return false;
            },
        };
        let copy = item.clone();
        let ghost s0 = self.database@;
        match self.database.save_item_at(item, now) {
            Ok(_) => {
                proof {
                    assert(self.database@ == saved(s0, copy@, now));
                }
                self.events.publish(ClipboardEvent::ItemAdded(copy));
                proof {
                    assert(self.entries() == saved(old(self).entries(), copy@, now));
                    assert(pipeline_saved(*old(self), *self, snapshot@));
                }
                true
            },
            Err(_) => false,
        }
    }

    pub fn get_recent_items(&self, limit: u32) -> (r: Vec<ClipboardItem>)
        requires
            self.inv(),
        ensures
            r.deep_view() == if limit as int <= self.entries().len() {
                self.entries().take(limit as int)
            } else {
                self.entries()
            },
    {
        self.database.get_recent_items(limit)
    }

    pub fn search_items(&self, query: &SearchQuery) -> (r: Vec<ClipboardItem>)
        requires
            self.inv(),
        ensures
            r.deep_view() == query_results(self.entries(), query@),
    {
        self.database.search_items(query)
    }

    /// Saves one entry against the wall clock under the near-duplicate
    /// rule.
    pub fn save_item(&mut self, item: ClipboardItem) -> (r: Result<(), StoreError>)
        requires
            old(self).inv(),
            valid_item(item@),
        ensures
            final(self).inv(),
            final(self).settings_model() == old(self).settings_model(),
            old(self).entries().len() < 0xFFFF_FFFF ==> r is Ok,
            r is Ok ==> exists|t: i64|
                final(self).entries() == #[trigger] saved(old(self).entries(), item@, t),
            r is Err ==> final(self).entries() == old(self).entries() && r == Err::<
                (),
                StoreError,
            >(StoreError::Full),
    {
        self.database.save_item(item)
    }

    pub fn update_item(&mut self, item: ClipboardItem) -> (r: Result<(), StoreError>)
        requires
            old(self).inv(),
            valid_item(item@),
        ensures
            final(self).inv(),
            final(self).settings_model() == old(self).settings_model(),
            contains_id(old(self).entries(), item@.id) ==> r is Ok && final(self).entries()
                == insert_sorted(remove_id(old(self).entries(), item@.id), item@),
            !contains_id(old(self).entries(), item@.id) ==> r == Err::<(), StoreError>(
                StoreError::NotFound,
            ) && final(self).entries() == old(self).entries(),
    {
        self.database.update_item(item)
    }

    /// Removes an entry and publishes its removal.
    pub fn delete_item(&mut self, id: u128) -> (r: Result<(), StoreError>)
        requires
            old(self).inv(),
        ensures
            final(self).inv(),
            final(self).settings_model() == old(self).settings_model(),
            r is Ok,
            final(self).entries() == remove_id(old(self).entries(), id),
            final(self).event_log() == old(self).event_log().push(
                crate::events::EventModel::ItemRemoved(id),
            ),
    {
        let res = self.database.delete_item(id);
        self.events.publish(ClipboardEvent::ItemRemoved(id));
        res
    }

    pub fn get_item(&self, id: u128) -> (r: Option<ClipboardItem>)
        requires
            self.inv(),
        ensures
            r is Some <==> contains_id(self.entries(), id),
            r is Some ==> r->0@ == self.entries()[idx_of(self.entries(), id)] && r->0@.id == id,
    {
        self.database.get_item(id)
    }

    pub fn set_favorite(&mut self, id: u128, favorite: bool) -> (r: Result<(), StoreError>)
        requires
            old(self).inv(),
        ensures
            final(self).inv(),
            final(self).settings_model() == old(self).settings_model(),
            contains_id(old(self).entries(), id) ==> r is Ok && final(self).entries()
                == with_favorite(old(self).entries(), id, favorite),
            !contains_id(old(self).entries(), id) ==> r == Err::<(), StoreError>(
                StoreError::NotFound,
            ) && final(self).entries() == old(self).entries(),
    {
        self.database.set_favorite(id, favorite)
    }

    pub fn set_pinned(&mut self, id: u128, pinned: bool) -> (r: Result<(), StoreError>)
        requires
            old(self).inv(),
        ensures
            final(self).inv(),
            final(self).settings_model() == old(self).settings_model(),
            contains_id(old(self).entries(), id) ==> r is Ok && final(self).entries() == with_pinned(
                old(self).entries(),
                id,
                pinned,
            ),
            !contains_id(old(self).entries(), id) ==> r == Err::<(), StoreError>(
                StoreError::NotFound,
            ) && final(self).entries() == old(self).entries(),
    {
        self.database.set_pinned(id, pinned)
    }

    pub fn add_tags(&mut self, id: u128, tags: Vec<String>) -> (r: Result<(), StoreError>)
        requires
            old(self).inv(),
        ensures
            final(self).inv(),
            final(self).settings_model() == old(self).settings_model(),
            contains_id(old(self).entries(), id) ==> r is Ok && final(self).entries() == with_tags(
                old(self).entries(),
                id,
                merge_tags(
                    old(self).entries()[idx_of(old(self).entries(), id)].tags,
                    tags.deep_view(),
                ),
            ),
            !contains_id(old(self).entries(), id) ==> r == Err::<(), StoreError>(
                StoreError::NotFound,
            ) && final(self).entries() == old(self).entries(),
    {
        self.database.add_tags(id, tags)
    }

    pub fn remove_tags(&mut self, id: u128, tags: Vec<String>) -> (r: Result<(), StoreError>)
        requires
            old(self).inv(),
        ensures
            final(self).inv(),
            final(self).settings_model() == old(self).settings_model(),
            contains_id(old(self).entries(), id) ==> r is Ok && final(self).entries() == with_tags(
                old(self).entries(),
                id,
                drop_tags(
                    old(self).entries()[idx_of(old(self).entries(), id)].tags,
                    tags.deep_view(),
                ),
            ),
            !contains_id(old(self).entries(), id) ==> r == Err::<(), StoreError>(
                StoreError::NotFound,
            ) && final(self).entries() == old(self).entries(),
    {
        self.database.remove_tags(id, tags)
    }

    /// Aggregate counts over the store.  The on-disk sizes belong to the
    /// persistence mirror, which this in-memory core reports as zero.
    pub fn get_statistics(&self) -> (st: Statistics)
        requires
            self.inv(),
        ensures
            st.total_items == self.entries().len(),
            st.text_items == crate::store::count_where(
                self.entries(),
                crate::store::type_pred(crate::model::ContentType::Text),
            ),
            st.image_items == crate::store::count_where(
                self.entries(),
                crate::store::type_pred(crate::model::ContentType::Image),
            ),
            st.file_items == crate::store::count_where(
                self.entries(),
                crate::store::type_pred(crate::model::ContentType::File),
            ),
            st.html_items == crate::store::count_where(
                self.entries(),
                crate::store::type_pred(crate::model::ContentType::Html),
            ),
            st.favorite_items == crate::store::count_where(
                self.entries(),
                crate::store::fav_pred(),
            ),
            st.pinned_items == crate::store::count_where(self.entries(), crate::store::pin_pred()),
            st.total_size_bytes as int == if crate::store::sizes_sum(self.entries()) <= u64::MAX {
                crate::store::sizes_sum(self.entries())
            } else {
                u64::MAX as int
            },
            st.database_size_bytes == 0 && st.cache_size_bytes == 0,
    {
        self.database.get_statistics(0, 0)
    }

    /// One retention pass against the wall clock, using the configured
    /// retention window.
    pub fn cleanup_old_items(&mut self) -> (r: u32)
        requires
            old(self).inv(),
        ensures
            final(self).inv(),
            final(self).settings_model() == old(self).settings_model(),
            final(self).monitor_state() == old(self).monitor_state(),
            exists|t: i64|
                final(self).entries() == #[trigger] cleaned(
                    old(self).entries(),
                    t,
                    old(self).settings_model().keep_days,
                ) && r == old(self).entries().len() - final(self).entries().len(),
    {
        let ghost e0 = self.database@;
        let kd = self.settings.keep_days;
        let r = self.database.cleanup_old_items(kd);
        proof {
            let t = choose|t: i64|
                self.database@ == #[trigger] cleaned(e0, t, kd) && r == e0.len()
                    - self.database@.len();
            assert(self.entries() == cleaned(old(self).entries(), t, old(
                self,
            ).settings_model().keep_days));
        }
        r
    }

    pub fn export_items(&self, format: ExportFormat) -> (r: String)
        requires
            self.inv(),
        ensures
            r@ == match format {
                ExportFormat::Json => crate::export::json_of_items(self.entries()),
                ExportFormat::Csv => crate::export::csv_of_items(self.entries()),
                ExportFormat::Html => crate::export::html_of_items(self.entries()),
                ExportFormat::Markdown => crate::export::md_of_items(self.entries()),
            },
    {
        self.database.export_items(format)
    }

    pub fn import_items(&mut self, doc: &str) -> (r: Result<u32, StoreError>)
        requires
            old(self).inv(),
        ensures
            final(self).inv(),
            final(self).settings_model() == old(self).settings_model(),
            r == Err::<u32, StoreError>(StoreError::Malformed) <==> !crate::json::json_doc_is_array(
                doc@,
            ),
            crate::json::json_doc_is_array(doc@) ==> r is Ok || r == Err::<u32, StoreError>(
                StoreError::Full,
            ),
            r is Err ==> final(self).entries() == old(self).entries(),
            r is Ok ==> r->Ok_0 as int == final(self).entries().len() - old(self).entries().len(),
            r is Ok ==> exists|ids: Seq<u128>, t: i64|
                ids.len() == crate::export::doc_rows(doc@).len() && final(self).entries()
                    == #[trigger] crate::store::saved_all(
                    old(self).entries(),
                    crate::export::items_from_rows(crate::export::doc_rows(doc@), ids),
                    t,
                ),
    {
        let ghost e0 = self.database@;
        let r = self.database.import_items(doc);
        proof {
            if r is Ok {
                let (ids, t) = choose|ids: Seq<u128>, t: i64|
                    ids.len() == crate::export::doc_rows(doc@).len() && self.database@
                        == crate::store::saved_all(
                        e0,
                        crate::export::items_from_rows(crate::export::doc_rows(doc@), ids),
                        t,
                    );
                assert(self.entries() == crate::store::saved_all(
                    old(self).entries(),
                    crate::export::items_from_rows(crate::export::doc_rows(doc@), ids),
                    t,
                ));
            }
        }
        r
    }

    /// A copy of the current settings.
    pub fn get_settings(&self) -> (r: AppSettings)
        ensures
            r@ == self.settings_model(),
    {
        self.settings.clone()
    }

    /// The settings serialized for the control surface.
    pub fn get_settings_doc(&self) -> (r: String)
        ensures
            r@ == crate::json::json_of_settings(self.settings_model()),
    {
        crate::json::settings_to_json(&self.settings)
    }

    /// Applies a new settings value and publishes the change.  The
    /// application layer persists the serialized document.
    pub fn update_settings(&mut self, settings: AppSettings) -> (r: Result<(), StoreError>)
        requires
            old(self).inv(),
        ensures
            r is Ok,
            final(self).inv(),
            final(self).settings_model() == settings@,
            final(self).entries() == old(self).entries(),
            final(self).monitor_state() == old(self).monitor_state(),
            final(self).event_log() == old(self).event_log().push(
                crate::events::EventModel::SettingsChanged(settings@),
            ),
    {
        let copy = settings.clone();
        self.settings = settings;
        self.events.publish(ClipboardEvent::SettingsChanged(copy));
        Ok(())
    }

    /// Applies a serialized settings document.  The update succeeds
    /// exactly when the document deserializes into a complete settings
    /// value; the deserialized value is installed and its change event
    /// published.  A rejected document — not well-formed JSON, or missing
    /// or mistyped fields — changes nothing and publishes nothing.
    pub fn update_settings_doc(&mut self, doc: &str) -> (r: bool)
        requires
            old(self).inv(),
        ensures
            final(self).inv(),
            final(self).entries() == old(self).entries(),
            final(self).monitor_state() == old(self).monitor_state(),
            r <==> crate::json::settings_of_doc(doc@) is Some,
            r ==> final(self).settings_model() == crate::json::settings_of_doc(doc@)->0,
            r ==> final(self).event_log() == old(self).event_log().push(
                crate::events::EventModel::SettingsChanged(
                    crate::json::settings_of_doc(doc@)->0,
                ),
            ),
            !r ==> final(self).settings_model() == old(self).settings_model(),
            !r ==> final(self).event_log() == old(self).event_log(),
    {
        match crate::json::settings_from_json(doc) {
            Some(s) => {
                let _ = self.update_settings(s);
                true
            },
            None => false,
        }
    }

    /// Whether the background listener should keep running.
    pub fn monitor_running(&self) -> (r: bool)
        ensures
            r == (self.monitor_state() == MonitorState::Running),
    {
        self.monitor.is_running()
    }

    /// The consumer side of the event channel: every event published after
    /// this core was created can be observed here, in publication order
    /// per producer.
    pub fn receive_events(&self) -> &crossbeam_channel::Receiver<ClipboardEvent> {
        self.events.receiver()
    }

    /// A producer handle on the event channel for the listener thread.
    pub fn event_sender(&self) -> crossbeam_channel::Sender<ClipboardEvent> {
        self.events.sender()
    }
}

} // verus!
