//! The families that are logged and answered with nothing, and the provider's own face.

use vstd::prelude::*;

use crate::episodic::ConversationSegment;
use crate::provider::answers::{
    AddressBookSeedOutcome, AnswerRequest, AnswerResponse, Chunk, ChunkDetail, ChunkEmbedding,
    ChunkQuery, ChunkScore, CodingSessionIngestReport, CodingSessionIngestRequest,
    CodingSessionSource, DegradedCapabilities, Diagnosis, DiffReport, EntityHit, EpisodicEvent,
    EpisodicTurn, FacetType, LearningCandidate, MaintenanceReport, MemoryHealth, PersonHandle,
    PersonInteraction, PersonRecord, PersonScore, ProfileFacet, RankedPerson, RawArchiveCoverage,
    RawMemoryEvent, RawRebuildOutcome, ResolvedPerson, SnapshotRef, SourceIngestQuery,
    SourceIngestStatus, SourceSyncState, SourceSyncStatus, SyncAuditEntry, SyncRunOutcome,
    UserState,
};
use crate::provider::scope::scoped_call;
use crate::provider::{RecordingProvider, FULL_DRIVER_ID};
use crate::provider::types::{
    Call, Capability, GraphRelationRecord, IngestItem, IngestOutcome, MemoryError, SourceScope,
};

verus! {

/// Entities.
impl RecordingProvider {
    /// The entities of a namespace.
    pub fn entities(
        &mut self,
        _namespace: &str,
        _query: Option<&str>,
        _limit: usize,
    ) -> (r: Result<Vec<EntityHit>, MemoryError>)
        ensures
            final(self)@ == old(self)@.logged(crate::provider::plain_call("entities.entities"@)),
            r is Ok,
            r->Ok_0@.len() == 0,
    {
        self.record(Call::plain("entities.entities"));
        Ok(Vec::new())
    }

    /// The relations of an entity.
    pub fn entity_edges(
        &mut self,
        _namespace: &str,
        _entity_id: &str,
        _limit: usize,
    ) -> (r: Result<Vec<GraphRelationRecord>, MemoryError>)
        ensures
            final(self)@ == old(self)@.logged(
                crate::provider::plain_call("entities.entity_edges"@),
            ),
            r is Ok,
            r->Ok_0@.len() == 0,
    {
        self.record(Call::plain("entities.entity_edges"));
        Ok(Vec::new())
    }

    /// Marks entities as used.
    pub fn touch_entities(
        &mut self,
        _namespace: &str,
        _entity_ids: &Vec<String>,
    ) -> (r: Result<(), MemoryError>)
        ensures
            final(self)@ == old(self)@.logged(
                crate::provider::plain_call("entities.touch_entities"@),
            ),
            r is Ok,
    {
        self.record(Call::plain("entities.touch_entities"));
        Ok(())
    }
}

/// Snapshots of sources, and what changed between them.
impl RecordingProvider {
    /// Captures a snapshot of a source.
    pub fn capture_snapshot(&mut self, _source_id: &str) -> (r: Result<SnapshotRef, MemoryError>)
        ensures
            final(self)@ == old(self)@.logged(
                crate::provider::plain_call("diff.capture_snapshot"@),
            ),
            r is Err,
            r->Err_0 is NotFound,
            r->Err_0->NotFound_0@ == "source"@,
    {
        self.record(Call::plain("diff.capture_snapshot"));
        Err(MemoryError::NotFound("source".to_owned()))
    }

    /// The snapshots of a source.
    pub fn snapshots(
        &mut self,
        _source_id: &str,
        _limit: usize,
    ) -> (r: Result<Vec<SnapshotRef>, MemoryError>)
        ensures
            final(self)@ == old(self)@.logged(crate::provider::plain_call("diff.snapshots"@)),
            r is Ok,
            r->Ok_0@.len() == 0,
    {
        self.record(Call::plain("diff.snapshots"));
        Ok(Vec::new())
    }

    /// What changed between two snapshots.
    pub fn diff(
        &mut self,
        _source_id: &str,
        _from: Option<&str>,
        _to: &str,
    ) -> (r: Result<DiffReport, MemoryError>)
        ensures
            final(self)@ == old(self)@.logged(crate::provider::plain_call("diff.diff"@)),
            r is Err,
            r->Err_0 is NotFound,
            r->Err_0->NotFound_0@ == "snapshot"@,
    {
        self.record(Call::plain("diff.diff"));
        Err(MemoryError::NotFound("snapshot".to_owned()))
    }
}

/// Maintenance.
impl RecordingProvider {
    /// Embeds everything again.
    pub fn reembed(&mut self) -> (r: Result<MaintenanceReport, MemoryError>)
        ensures
            final(self)@ == old(self)@.logged(crate::provider::plain_call("maintenance.reembed"@)),
            r == Ok::<MaintenanceReport, MemoryError>((MaintenanceReport { examined: 0, changed: 0 })),
    {
        self.record(Call::plain("maintenance.reembed"));
        Ok(MaintenanceReport::default())
    }

    /// Compacts the store.
    pub fn compact(&mut self) -> (r: Result<MaintenanceReport, MemoryError>)
        ensures
            final(self)@ == old(self)@.logged(crate::provider::plain_call("maintenance.compact"@)),
            r == Ok::<MaintenanceReport, MemoryError>((MaintenanceReport { examined: 0, changed: 0 })),
    {
        self.record(Call::plain("maintenance.compact"));
        Ok(MaintenanceReport::default())
    }

    /// Consolidates memories.
    pub fn consolidate(&mut self) -> (r: Result<MaintenanceReport, MemoryError>)
        ensures
            final(self)@ == old(self)@.logged(
                crate::provider::plain_call("maintenance.consolidate"@),
            ),
            r == Ok::<MaintenanceReport, MemoryError>((MaintenanceReport { examined: 0, changed: 0 })),
    {
        self.record(Call::plain("maintenance.consolidate"));
        Ok(MaintenanceReport::default())
    }

    /// Repairs the store.
    pub fn doctor(&mut self) -> (r: Result<MaintenanceReport, MemoryError>)
        ensures
            final(self)@ == old(self)@.logged(crate::provider::plain_call("maintenance.doctor"@)),
            r == Ok::<MaintenanceReport, MemoryError>((MaintenanceReport { examined: 0, changed: 0 })),
    {
        self.record(Call::plain("maintenance.doctor"));
        Ok(MaintenanceReport::default())
    }

    /// Diagnoses the store.
    pub fn diagnose(&mut self) -> (r: Result<Diagnosis, MemoryError>)
        ensures
            final(self)@ == old(self)@.logged(crate::provider::plain_call("maintenance.diagnose"@)),
            r == Ok::<Diagnosis, MemoryError>((Diagnosis { problems: 0 })),
    {
        self.record(Call::plain("maintenance.diagnose"));
        Ok(Diagnosis::default())
    }

    /// Which capabilities are degraded.
    pub fn degraded_state(&mut self) -> (r: Result<DegradedCapabilities, MemoryError>)
        ensures
            final(self)@ == old(self)@.logged(
                crate::provider::plain_call("maintenance.degraded_state"@),
            ),
            r == Ok::<DegradedCapabilities, MemoryError>((DegradedCapabilities { degraded: 0 })),
    {
        self.record(Call::plain("maintenance.degraded_state"));
        Ok(DegradedCapabilities::default())
    }
}

/// Synchronisation of sources.
impl RecordingProvider {
    /// Runs the sync of a connection.
    pub fn run_connection_sync(
        &mut self,
        _toolkit: &str,
        _connection_id: &str,
    ) -> (r: Result<SyncRunOutcome, MemoryError>)
        ensures
            final(self)@ == old(self)@.logged(
                crate::provider::plain_call("source_sync.run_connection_sync"@),
            ),
            r == Ok::<SyncRunOutcome, MemoryError>((SyncRunOutcome { records_ingested: 0, actions_called: 0 })),
    {
        self.record(Call::plain("source_sync.run_connection_sync"));
        Ok(SyncRunOutcome::default())
    }

    /// How far the sync of a connection has come.
    pub fn source_sync_state(
        &mut self,
        _toolkit: &str,
        _connection_id: &str,
    ) -> (r: Result<Option<SourceSyncState>, MemoryError>)
        ensures
            final(self)@ == old(self)@.logged(
                crate::provider::plain_call("source_sync.source_sync_state"@),
            ),
            r == Ok::<Option<SourceSyncState>, MemoryError>(None),
    {
        self.record(Call::plain("source_sync.source_sync_state"));
        Ok(None)
    }

    /// The records of sync runs.
    pub fn sync_audit_log(
        &mut self,
        _limit: Option<usize>,
    ) -> (r: Result<Vec<SyncAuditEntry>, MemoryError>)
        ensures
            final(self)@ == old(self)@.logged(
                crate::provider::plain_call("source_sync.sync_audit_log"@),
            ),
            r is Ok,
            r->Ok_0@.len() == 0,
    {
        self.record(Call::plain("source_sync.sync_audit_log"));
        Ok(Vec::new())
    }

    /// What a sync costs in dollars, a double-precision number by its bit pattern.
    pub fn estimate_sync_cost_usd(
        &mut self,
        _input_tokens: u64,
        _output_tokens: u64,
    ) -> (r: Result<u64, MemoryError>)
        ensures
            final(self)@ == old(self)@.logged(
                crate::provider::plain_call("source_sync.estimate_sync_cost_usd"@),
            ),
            r == Ok::<u64, MemoryError>(0),
    {
        self.record(Call::plain("source_sync.estimate_sync_cost_usd"));
        Ok(0)
    }

    /// The state of every source's sync.
    pub fn sync_statuses(&mut self) -> (r: Result<Vec<SourceSyncStatus>, MemoryError>)
        ensures
            final(self)@ == old(self)@.logged(
                crate::provider::plain_call("source_sync.sync_statuses"@),
            ),
            r is Ok,
            r->Ok_0@.len() == 0,
    {
        self.record(Call::plain("source_sync.sync_statuses"));
        Ok(Vec::new())
    }

    /// How much of a raw archive its tree covers.
    pub fn raw_archive_coverage(
        &mut self,
        _tree_scope: &str,
        _archive_source_id: &str,
    ) -> (r: Result<RawArchiveCoverage, MemoryError>)
        ensures
            final(self)@ == old(self)@.logged(
                crate::provider::plain_call("source_sync.raw_archive_coverage"@),
            ),
            r == Ok::<RawArchiveCoverage, MemoryError>((RawArchiveCoverage { total: 0, covered: 0 })),
    {
        self.record(Call::plain("source_sync.raw_archive_coverage"));
        Ok(RawArchiveCoverage::default())
    }

    /// Rebuilds a tree from its raw archive.
    pub fn rebuild_from_raw_archive(
        &mut self,
        _tree_scope: &str,
        _archive_source_id: &str,
    ) -> (r: Result<RawRebuildOutcome, MemoryError>)
        ensures
            final(self)@ == old(self)@.logged(
                crate::provider::plain_call("source_sync.rebuild_from_raw_archive"@),
            ),
            r == Ok::<RawRebuildOutcome, MemoryError>((RawRebuildOutcome { files_read: 0, batches: 0 })),
    {
        self.record(Call::plain("source_sync.rebuild_from_raw_archive"));
        Ok(RawRebuildOutcome::default())
    }
}

/// Coding sessions.
impl RecordingProvider {
    /// Where coding sessions are found.
    pub fn coding_session_status(&mut self) -> (r: Result<Vec<CodingSessionSource>, MemoryError>)
        ensures
            final(self)@ == old(self)@.logged(
                crate::provider::plain_call("coding_sessions.coding_session_status"@),
            ),
            r is Ok,
            r->Ok_0@.len() == 0,
    {
        self.record(Call::plain("coding_sessions.coding_session_status"));
        Ok(Vec::new())
    }

    /// Ingests coding sessions.
    pub fn ingest_coding_sessions(
        &mut self,
        _request: CodingSessionIngestRequest,
    ) -> (r: Result<CodingSessionIngestReport, MemoryError>)
        ensures
            final(self)@ == old(self)@.logged(
                crate::provider::plain_call("coding_sessions.ingest_coding_sessions"@),
            ),
            r == Ok::<CodingSessionIngestReport, MemoryError>((CodingSessionIngestReport { sessions: 0, chunks: 0 })),
    {
        self.record(Call::plain("coding_sessions.ingest_coding_sessions"));
        Ok(CodingSessionIngestReport::default())
    }
}

/// Conversations, turn by turn. Times are double-precision numbers by their bit patterns.
impl RecordingProvider {
    /// Keeps a turn, and says under which number.
    pub fn insert_turn(&mut self, turn: &EpisodicTurn) -> (r: Result<i64, MemoryError>)
        ensures
            final(self)@ == old(self)@.logged(
                crate::provider::content_call("episodic.insert_turn"@, turn.content@),
            ),
            r == Ok::<i64, MemoryError>(1),
    {
        self.record(Call::with_content("episodic.insert_turn", turn.content.as_str()));
        Ok(1)
    }

    /// The turns of a session.
    pub fn session_turns(
        &mut self,
        _session_id: &str,
    ) -> (r: Result<Vec<EpisodicTurn>, MemoryError>)
        ensures
            final(self)@ == old(self)@.logged(
                crate::provider::plain_call("episodic.session_turns"@),
            ),
            r is Ok,
            r->Ok_0@.len() == 0,
    {
        self.record(Call::plain("episodic.session_turns"));
        Ok(Vec::new())
    }

    /// The open segment of a session.
    pub fn open_segment(
        &mut self,
        _session_id: &str,
    ) -> (r: Result<Option<ConversationSegment>, MemoryError>)
        ensures
            final(self)@ == old(self)@.logged(
                crate::provider::plain_call("episodic.open_segment"@),
            ),
            r == Ok::<Option<ConversationSegment>, MemoryError>(None),
    {
        self.record(Call::plain("episodic.open_segment"));
        Ok(None)
    }

    /// The segments that wait for their summary.
    pub fn segments_pending_summary(
        &mut self,
        _limit: u32,
    ) -> (r: Result<Vec<ConversationSegment>, MemoryError>)
        ensures
            final(self)@ == old(self)@.logged(
                crate::provider::plain_call("episodic.segments_pending_summary"@),
            ),
            r is Ok,
            r->Ok_0@.len() == 0,
    {
        self.record(Call::plain("episodic.segments_pending_summary"));
        Ok(Vec::new())
    }

    /// Opens a segment.
    pub fn create_segment(
        &mut self,
        _segment_id: &str,
        _session_id: &str,
        _namespace: &str,
        _start_episodic_id: i64,
        _start_seq: Option<u32>,
        _start_timestamp: u64,
        _now: u64,
    ) -> (r: Result<(), MemoryError>)
        ensures
            final(self)@ == old(self)@.logged(
                crate::provider::plain_call("episodic.create_segment"@),
            ),
            r is Ok,
    {
        self.record(Call::plain("episodic.create_segment"));
        Ok(())
    }

    /// Adds a turn to a segment.
    pub fn append_turn(
        &mut self,
        _segment_id: &str,
        _episodic_id: i64,
        _seq: Option<u32>,
        _timestamp: u64,
        _now: u64,
    ) -> (r: Result<(), MemoryError>)
        ensures
            final(self)@ == old(self)@.logged(crate::provider::plain_call("episodic.append_turn"@)),
            r is Ok,
    {
        self.record(Call::plain("episodic.append_turn"));
        Ok(())
    }

    /// Closes a segment.
    pub fn close_segment(&mut self, _segment_id: &str, _now: u64) -> (r: Result<(), MemoryError>)
        ensures
            final(self)@ == old(self)@.logged(
                crate::provider::plain_call("episodic.close_segment"@),
            ),
            r is Ok,
    {
        self.record(Call::plain("episodic.close_segment"));
        Ok(())
    }

    /// Keeps an event.
    pub fn insert_event(&mut self, event: &EpisodicEvent) -> (r: Result<(), MemoryError>)
        ensures
            final(self)@ == old(self)@.logged(
                crate::provider::content_call("episodic.insert_event"@, event.content@),
            ),
            r is Ok,
    {
        self.record(Call::with_content("episodic.insert_event", event.content.as_str()));
        Ok(())
    }

    /// Sets the summary of a segment.
    pub fn set_segment_summary(
        &mut self,
        _segment_id: &str,
        summary: &str,
        _now: u64,
    ) -> (r: Result<(), MemoryError>)
        ensures
            final(self)@ == old(self)@.logged(
                crate::provider::content_call("episodic.set_segment_summary"@, summary@),
            ),
            r is Ok,
    {
        self.record(Call::with_content("episodic.set_segment_summary", summary));
        Ok(())
    }

    /// Keeps the vector of a segment, given by bit patterns.
    pub fn upsert_segment_embedding(
        &mut self,
        _segment_id: &str,
        _model_signature: &str,
        _embedding: &Vec<u32>,
        _created_at: u64,
    ) -> (r: Result<(), MemoryError>)
        ensures
            final(self)@ == old(self)@.logged(
                crate::provider::plain_call("episodic.upsert_segment_embedding"@),
            ),
            r is Ok,
    {
        self.record(Call::plain("episodic.upsert_segment_embedding"));
        Ok(())
    }
}

/// The user's profile.
impl RecordingProvider {
    /// The active facets.
    pub fn list_active_facets(&mut self) -> (r: Result<Vec<ProfileFacet>, MemoryError>)
        ensures
            final(self)@ == old(self)@.logged(
                crate::provider::plain_call("profile.list_active_facets"@),
            ),
            r is Ok,
            r->Ok_0@.len() == 0,
    {
        self.record(Call::plain("profile.list_active_facets"));
        Ok(Vec::new())
    }

    /// All facets.
    pub fn list_all_facets(&mut self) -> (r: Result<Vec<ProfileFacet>, MemoryError>)
        ensures
            final(self)@ == old(self)@.logged(
                crate::provider::plain_call("profile.list_all_facets"@),
            ),
            r is Ok,
            r->Ok_0@.len() == 0,
    {
        self.record(Call::plain("profile.list_all_facets"));
        Ok(Vec::new())
    }

    /// One facet.
    pub fn get_facet(&mut self, _key: &str) -> (r: Result<Option<ProfileFacet>, MemoryError>)
        ensures
            final(self)@ == old(self)@.logged(crate::provider::plain_call("profile.get_facet"@)),
            r == Ok::<Option<ProfileFacet>, MemoryError>(None),
    {
        self.record(Call::plain("profile.get_facet"));
        Ok(None)
    }

    /// The facets of a kind.
    pub fn facets_by_type(
        &mut self,
        _facet_type: FacetType,
    ) -> (r: Result<Vec<ProfileFacet>, MemoryError>)
        ensures
            final(self)@ == old(self)@.logged(
                crate::provider::plain_call("profile.facets_by_type"@),
            ),
            r is Ok,
            r->Ok_0@.len() == 0,
    {
        self.record(Call::plain("profile.facets_by_type"));
        Ok(Vec::new())
    }

    /// Keeps a facet.
    pub fn upsert_facet(&mut self, _facet: &ProfileFacet) -> (r: Result<(), MemoryError>)
        ensures
            final(self)@ == old(self)@.logged(crate::provider::plain_call("profile.upsert_facet"@)),
            r is Ok,
    {
        self.record(Call::plain("profile.upsert_facet"));
        Ok(())
    }

    /// Keeps a facet that a provider observed. Confidence and time are double-precision numbers by
    /// their bit patterns.
    pub fn upsert_provider_facet(
        &mut self,
        _facet_id: &str,
        _facet_type: FacetType,
        _key: &str,
        _value: &str,
        _confidence: u64,
        _segment_id: Option<&str>,
        _observed_at: u64,
    ) -> (r: Result<(), MemoryError>)
        ensures
            final(self)@ == old(self)@.logged(
                crate::provider::plain_call("profile.upsert_provider_facet"@),
            ),
            r is Ok,
    {
        self.record(Call::plain("profile.upsert_provider_facet"));
        Ok(())
    }

    /// Sets what the user made of a facet.
    pub fn set_facet_user_state(
        &mut self,
        _key: &str,
        _user_state: UserState,
    ) -> (r: Result<bool, MemoryError>)
        ensures
            final(self)@ == old(self)@.logged(
                crate::provider::plain_call("profile.set_facet_user_state"@),
            ),
            r == Ok::<bool, MemoryError>(false),
    {
        self.record(Call::plain("profile.set_facet_user_state"));
        Ok(false)
    }

    /// Deletes a facet by key.
    pub fn delete_facet(&mut self, _key: &str) -> (r: Result<bool, MemoryError>)
        ensures
            final(self)@ == old(self)@.logged(crate::provider::plain_call("profile.delete_facet"@)),
            r == Ok::<bool, MemoryError>(false),
    {
        self.record(Call::plain("profile.delete_facet"));
        Ok(false)
    }

    /// Deletes a facet by id.
    pub fn delete_facet_by_id(&mut self, _facet_id: &str) -> (r: Result<bool, MemoryError>)
        ensures
            final(self)@ == old(self)@.logged(
                crate::provider::plain_call("profile.delete_facet_by_id"@),
            ),
            r == Ok::<bool, MemoryError>(false),
    {
        self.record(Call::plain("profile.delete_facet_by_id"));
        Ok(false)
    }

    /// Drops facets below a confidence, a double-precision number by its bit pattern.
    pub fn drop_facets_below(&mut self, _threshold: u64) -> (r: Result<usize, MemoryError>)
        ensures
            final(self)@ == old(self)@.logged(
                crate::provider::plain_call("profile.drop_facets_below"@),
            ),
            r == Ok::<usize, MemoryError>(0),
    {
        self.record(Call::plain("profile.drop_facets_below"));
        Ok(0)
    }

    /// Whether a value matches a workflow identity.
    pub fn workflow_identity_matches(&mut self, _pattern: &str, _value: &str) -> (r: bool)
        ensures
            final(self)@ == old(self)@.logged(
                crate::provider::plain_call("profile.workflow_identity_matches"@),
            ),
            !r,
    {
        self.record(Call::plain("profile.workflow_identity_matches"));
        false
    }
}

/// Chunks.
impl RecordingProvider {
    /// The chunks that a query asks for, within a scope.
    pub fn list_chunks(
        &mut self,
        _query: &ChunkQuery,
        scope: Option<&SourceScope>,
    ) -> (r: Result<Vec<Chunk>, MemoryError>)
        ensures
            final(self)@ == old(self)@.logged(
                crate::provider::scope::scope_call("chunks.list_chunks"@, scope),
            ),
            r is Ok,
            r->Ok_0@.len() == 0,
    {
        self.record(scoped_call("chunks.list_chunks", scope));
        Ok(Vec::new())
    }

    /// One chunk.
    pub fn get_chunk(&mut self, _chunk_id: &str) -> (r: Result<Option<Chunk>, MemoryError>)
        ensures
            final(self)@ == old(self)@.logged(crate::provider::plain_call("chunks.get_chunk"@)),
            r == Ok::<Option<Chunk>, MemoryError>(None),
    {
        self.record(Call::plain("chunks.get_chunk"));
        Ok(None)
    }

    /// One chunk with what is known of it.
    pub fn chunk_detail(&mut self, _chunk_id: &str) -> (r: Result<Option<ChunkDetail>, MemoryError>)
        ensures
            final(self)@ == old(self)@.logged(crate::provider::plain_call("chunks.chunk_detail"@)),
            r == Ok::<Option<ChunkDetail>, MemoryError>(None),
    {
        self.record(Call::plain("chunks.chunk_detail"));
        Ok(None)
    }

    /// The kinds of storage there are.
    pub fn storage_kinds(&mut self) -> (r: Result<Vec<String>, MemoryError>)
        ensures
            final(self)@ == old(self)@.logged(crate::provider::plain_call("chunks.storage_kinds"@)),
            r is Ok,
            r->Ok_0@.len() == 0,
    {
        self.record(Call::plain("chunks.storage_kinds"));
        Ok(Vec::new())
    }

    /// The vectors of chunks.
    pub fn chunk_embeddings(
        &mut self,
        _chunk_ids: &Vec<String>,
        _model_signature: &str,
    ) -> (r: Result<Vec<ChunkEmbedding>, MemoryError>)
        ensures
            final(self)@ == old(self)@.logged(
                crate::provider::plain_call("chunks.chunk_embeddings"@),
            ),
            r is Ok,
            r->Ok_0@.len() == 0,
    {
        self.record(Call::plain("chunks.chunk_embeddings"));
        Ok(Vec::new())
    }

    /// The score of a chunk.
    pub fn chunk_score(&mut self, _chunk_id: &str) -> (r: Result<Option<ChunkScore>, MemoryError>)
        ensures
            final(self)@ == old(self)@.logged(crate::provider::plain_call("chunks.chunk_score"@)),
            r == Ok::<Option<ChunkScore>, MemoryError>(None),
    {
        self.record(Call::plain("chunks.chunk_score"));
        Ok(None)
    }

    /// What was ingested under some prefixes of source ids.
    pub fn source_ingest_status(
        &mut self,
        _source_prefixes: &Vec<SourceIngestQuery>,
    ) -> (r: Result<Vec<SourceIngestStatus>, MemoryError>)
        ensures
            final(self)@ == old(self)@.logged(
                crate::provider::plain_call("chunks.source_ingest_status"@),
            ),
            r is Ok,
            r->Ok_0@.len() == 0,
    {
        self.record(Call::plain("chunks.source_ingest_status"));
        Ok(Vec::new())
    }
}

/// People.
impl RecordingProvider {
    /// The people, by rank.
    pub fn list_people(
        &mut self,
        _limit: Option<usize>,
    ) -> (r: Result<Vec<RankedPerson>, MemoryError>)
        ensures
            final(self)@ == old(self)@.logged(crate::provider::plain_call("people.list_people"@)),
            r is Ok,
            r->Ok_0@.len() == 0,
    {
        self.record(Call::plain("people.list_people"));
        Ok(Vec::new())
    }

    /// One person.
    pub fn get_person(&mut self, _person_id: &str) -> (r: Result<Option<PersonRecord>, MemoryError>)
        ensures
            final(self)@ == old(self)@.logged(crate::provider::plain_call("people.get_person"@)),
            r == Ok::<Option<PersonRecord>, MemoryError>(None),
    {
        self.record(Call::plain("people.get_person"));
        Ok(None)
    }

    /// The person behind a handle.
    pub fn resolve_handle(
        &mut self,
        _handle: &PersonHandle,
        _create_if_missing: bool,
    ) -> (r: Result<Option<ResolvedPerson>, MemoryError>)
        ensures
            final(self)@ == old(self)@.logged(
                crate::provider::plain_call("people.resolve_handle"@),
            ),
            r == Ok::<Option<ResolvedPerson>, MemoryError>(None),
    {
        self.record(Call::plain("people.resolve_handle"));
        Ok(None)
    }

    /// Adds a handle to a person.
    pub fn add_handle_alias(
        &mut self,
        _person_id: &str,
        _handle: &PersonHandle,
    ) -> (r: Result<(), MemoryError>)
        ensures
            final(self)@ == old(self)@.logged(
                crate::provider::plain_call("people.add_handle_alias"@),
            ),
            r is Ok,
    {
        self.record(Call::plain("people.add_handle_alias"));
        Ok(())
    }

    /// The score of a person.
    pub fn score_person(
        &mut self,
        _person_id: &str,
    ) -> (r: Result<Option<PersonScore>, MemoryError>)
        ensures
            final(self)@ == old(self)@.logged(crate::provider::plain_call("people.score_person"@)),
            r == Ok::<Option<PersonScore>, MemoryError>(None),
    {
        self.record(Call::plain("people.score_person"));
        Ok(None)
    }

    /// Keeps an interaction.
    pub fn record_interaction(
        &mut self,
        _interaction: &PersonInteraction,
    ) -> (r: Result<(), MemoryError>)
        ensures
            final(self)@ == old(self)@.logged(
                crate::provider::plain_call("people.record_interaction"@),
            ),
            r is Ok,
    {
        self.record(Call::plain("people.record_interaction"));
        Ok(())
    }

    /// Seeds people from the address book.
    pub fn seed_from_address_book(&mut self) -> (r: Result<AddressBookSeedOutcome, MemoryError>)
        ensures
            final(self)@ == old(self)@.logged(
                crate::provider::plain_call("people.seed_from_address_book"@),
            ),
            r == Ok::<AddressBookSeedOutcome, MemoryError>((AddressBookSeedOutcome { people: 0, handles: 0 })),
    {
        self.record(Call::plain("people.seed_from_address_book"));
        Ok(AddressBookSeedOutcome::default())
    }
}

/// Scoring.
impl RecordingProvider {
    /// The entities that a query names.
    pub fn extract_entities(&mut self, query: &str) -> (r: Result<Vec<String>, MemoryError>)
        ensures
            final(self)@ == old(self)@.logged(
                crate::provider::content_call("scoring.extract_entities"@, query@),
            ),
            r is Ok,
            r->Ok_0@.len() == 0,
    {
        self.record(Call::with_content("scoring.extract_entities", query));
        Ok(Vec::new())
    }

    /// The vector of a text, by bit patterns.
    pub fn embed_text(&mut self, text: &str) -> (r: Result<Vec<u32>, MemoryError>)
        ensures
            final(self)@ == old(self)@.logged(
                crate::provider::content_call("scoring.embed_text"@, text@),
            ),
            r is Ok,
            r->Ok_0@.len() == 0,
    {
        self.record(Call::with_content("scoring.embed_text", text));
        Ok(Vec::new())
    }

    /// The name of the embedding model.
    pub fn embedder_slug(&mut self) -> (r: Result<String, MemoryError>)
        ensures
            final(self)@ == old(self)@.logged(
                crate::provider::plain_call("scoring.embedder_slug"@),
            ),
            r is Ok,
            r->Ok_0@.len() == 0,
    {
        self.record(Call::plain("scoring.embedder_slug"));
        Ok(String::new())
    }
}

/// Ingestion of typed documents.
pub trait MemoryDocumentIngest {
    /// Ingests one document.
    fn ingest_document(&mut self, document: IngestItem) -> Result<IngestOutcome, MemoryError>;
}

impl MemoryDocumentIngest for RecordingProvider {
    fn ingest_document(&mut self, document: IngestItem) -> (r: Result<IngestOutcome, MemoryError>)
        ensures
            final(self)@ == old(self)@.logged(crate::provider::tainted_call(
                    "document_ingest.ingest_document"@,
                    Some(document.content@),
                    Some(document.taint),
                )),
            r == Ok::<IngestOutcome, MemoryError>(IngestOutcome::none()),
    {
        self.record(
            Call {
                method: "document_ingest.ingest_document".to_owned(),
                content: Some(document.content),
                taint: Some(document.taint),
                scoped: None,
            },
        );
        Ok(IngestOutcome::default())
    }
}

/// The calls that an ingestion of a conversation logs: one per message.
pub open spec fn message_calls(messages: Seq<IngestItem>) -> Seq<crate::provider::types::CallView> {
    messages.map_values(
        |m: IngestItem|
            crate::provider::tainted_call(
                "conversation_ingest.ingest_conversation"@,
                Some(m.content@),
                Some(m.taint),
            ),
    )
}

/// The other typed ingestions, and answers.
impl RecordingProvider {
    /// Ingests a conversation, in order. Every message is logged on its own.
    pub fn ingest_conversation(&mut self, messages: Vec<IngestItem>) -> (r: Result<
        IngestOutcome,
        MemoryError,
    >)
        ensures
            final(self)@ == (crate::provider::ProviderView {
                calls: old(self)@.calls + message_calls(messages@),
                ..old(self)@
            }),
            r == Ok::<IngestOutcome, MemoryError>(IngestOutcome::none()),
    {
        let ghost before = self@;
        let ghost all = message_calls(messages@);
        let mut i: usize = 0;
        assert(before.calls + all.take(0) =~= before.calls);
        while i < messages.len()
            invariant
                i <= messages.len(),
                all == message_calls(messages@),
                self@ == (crate::provider::ProviderView {
                    calls: before.calls + all.take(i as int),
                    ..before
                }),
            decreases messages.len() - i,
        {
            assert(before.calls + all.take(i as int + 1) =~= (before.calls + all.take(
                i as int,
            )).push(all[i as int]));
            self.record(
                Call {
                    method: "conversation_ingest.ingest_conversation".to_owned(),
                    content: Some(messages[i].content.clone()),
                    taint: Some(messages[i].taint),
                    scoped: None,
                },
            );
            i = i + 1;
        }
        assert(all.take(i as int) =~= all);
        Ok(IngestOutcome::default())
    }

    /// Ingests something worth learning.
    pub fn ingest_learning(
        &mut self,
        _learning: LearningCandidate,
    ) -> (r: Result<IngestOutcome, MemoryError>)
        ensures
            final(self)@ == old(self)@.logged(
                crate::provider::plain_call("learning_ingest.ingest_learning"@),
            ),
            r == Ok::<IngestOutcome, MemoryError>(IngestOutcome::none()),
    {
        self.record(Call::plain("learning_ingest.ingest_learning"));
        Ok(IngestOutcome::default())
    }

    /// Ingests an event.
    pub fn ingest_event(
        &mut self,
        _event: RawMemoryEvent,
    ) -> (r: Result<IngestOutcome, MemoryError>)
        ensures
            final(self)@ == old(self)@.logged(
                crate::provider::plain_call("event_ingest.ingest_event"@),
            ),
            r == Ok::<IngestOutcome, MemoryError>(IngestOutcome::none()),
    {
        self.record(Call::plain("event_ingest.ingest_event"));
        Ok(IngestOutcome::default())
    }

    /// Answers a question.
    pub fn answer(&mut self, _request: AnswerRequest) -> (r: Result<AnswerResponse, MemoryError>)
        ensures
            final(self)@ == old(self)@.logged(crate::provider::plain_call("answer.answer"@)),
            r is Ok,
            r->Ok_0.answer@.len() == 0,
            r->Ok_0.model is None,
            r->Ok_0.citations@.len() == 0,
            r->Ok_0.steps@.len() == 0,
    {
        self.record(Call::plain("answer.answer"));
        Ok(
            AnswerResponse {
                answer: String::new(),
                model: None,
                citations: Vec::new(),
                steps: Vec::new(),
            },
        )
    }
}

/// The provider itself: who it is and what it serves. Every optional family is served.
impl RecordingProvider {
    /// The id that the driver binds under.
    pub fn driver_id(&self) -> (r: &'static str)
        ensures
            r@ == "recording"@,
    {
        FULL_DRIVER_ID
    }

    /// The families that it serves: all of them.
    pub fn capabilities(&self) -> (r: Vec<Capability>)
        ensures
            r@ == every_capability(),
    {
        let mut all: Vec<Capability> = Vec::new();
        all.push(Capability::Core);
        all.push(Capability::Recall);
        all.push(Capability::Portability);
        all.push(Capability::Ingest);
        all.push(Capability::Documents);
        all.push(Capability::Tree);
        all.push(Capability::Entities);
        all.push(Capability::Graph);
        all.push(Capability::Diff);
        all.push(Capability::Goals);
        all.push(Capability::ToolMemory);
        all.push(Capability::Sources);
        all.push(Capability::Maintenance);
        all.push(Capability::People);
        all.push(Capability::Chunks);
        all.push(Capability::Retrieval);
        all.push(Capability::Profile);
        all.push(Capability::Episodic);
        all.push(Capability::SourceSync);
        all.push(Capability::CodingSessions);
        all.push(Capability::Scoring);
        all.push(Capability::DocumentIngest);
        all.push(Capability::ConversationIngest);
        all.push(Capability::LearningIngest);
        all.push(Capability::EventIngest);
        all.push(Capability::Answer);
        assert(all@ =~= every_capability());
        all
    }

    /// It can always be used.
    pub fn health(&self) -> (r: MemoryHealth)
        ensures
            r == MemoryHealth::Ready,
    {
        MemoryHealth::Ready
    }

    /// The provider as one that serves ingest.
    pub fn as_ingest(&self) -> (r: Option<&Self>)
        ensures
            r == Some(self),
    {
        Some(self)
    }

    /// The provider as one that serves documents.
    pub fn as_documents(&self) -> (r: Option<&Self>)
        ensures
            r == Some(self),
    {
        Some(self)
    }

    /// The provider as one that serves tree.
    pub fn as_tree(&self) -> (r: Option<&Self>)
        ensures
            r == Some(self),
    {
        Some(self)
    }

    /// The provider as one that serves entities.
    pub fn as_entities(&self) -> (r: Option<&Self>)
        ensures
            r == Some(self),
    {
        Some(self)
    }

    /// The provider as one that serves graph.
    pub fn as_graph(&self) -> (r: Option<&Self>)
        ensures
            r == Some(self),
    {
        Some(self)
    }

    /// The provider as one that serves diff.
    pub fn as_diff(&self) -> (r: Option<&Self>)
        ensures
            r == Some(self),
    {
        Some(self)
    }

    /// The provider as one that serves goals.
    pub fn as_goals(&self) -> (r: Option<&Self>)
        ensures
            r == Some(self),
    {
        Some(self)
    }

    /// The provider as one that serves tool memory.
    pub fn as_tool_memory(&self) -> (r: Option<&Self>)
        ensures
            r == Some(self),
    {
        Some(self)
    }

    /// The provider as one that serves sources.
    pub fn as_sources(&self) -> (r: Option<&Self>)
        ensures
            r == Some(self),
    {
        Some(self)
    }

    /// The provider as one that serves maintenance.
    pub fn as_maintenance(&self) -> (r: Option<&Self>)
        ensures
            r == Some(self),
    {
        Some(self)
    }

    /// The provider as one that serves people.
    pub fn as_people(&self) -> (r: Option<&Self>)
        ensures
            r == Some(self),
    {
        Some(self)
    }

    /// The provider as one that serves chunks.
    pub fn as_chunks(&self) -> (r: Option<&Self>)
        ensures
            r == Some(self),
    {
        Some(self)
    }

    /// The provider as one that serves retrieval.
    pub fn as_retrieval(&self) -> (r: Option<&Self>)
        ensures
            r == Some(self),
    {
        Some(self)
    }

    /// The provider as one that serves profile.
    pub fn as_profile(&self) -> (r: Option<&Self>)
        ensures
            r == Some(self),
    {
        Some(self)
    }

    /// The provider as one that serves episodic.
    pub fn as_episodic(&self) -> (r: Option<&Self>)
        ensures
            r == Some(self),
    {
        Some(self)
    }

    /// The provider as one that serves source sync.
    pub fn as_source_sync(&self) -> (r: Option<&Self>)
        ensures
            r == Some(self),
    {
        Some(self)
    }

    /// The provider as one that serves coding sessions.
    pub fn as_coding_sessions(&self) -> (r: Option<&Self>)
        ensures
            r == Some(self),
    {
        Some(self)
    }

    /// The provider as one that serves scoring.
    pub fn as_scoring(&self) -> (r: Option<&Self>)
        ensures
            r == Some(self),
    {
        Some(self)
    }

    /// The provider as one that serves document ingest.
    pub fn as_document_ingest(&self) -> (r: Option<&Self>)
        ensures
            r == Some(self),
    {
        Some(self)
    }

    /// The provider as one that serves conversation ingest.
    pub fn as_conversation_ingest(&self) -> (r: Option<&Self>)
        ensures
            r == Some(self),
    {
        Some(self)
    }

    /// The provider as one that serves learning ingest.
    pub fn as_learning_ingest(&self) -> (r: Option<&Self>)
        ensures
            r == Some(self),
    {
        Some(self)
    }

    /// The provider as one that serves event ingest.
    pub fn as_event_ingest(&self) -> (r: Option<&Self>)
        ensures
            r == Some(self),
    {
        Some(self)
    }

    /// The provider as one that serves answer.
    pub fn as_answer(&self) -> (r: Option<&Self>)
        ensures
            r == Some(self),
    {
        Some(self)
    }
}

/// Every family there is.
pub open spec fn every_capability() -> Seq<Capability> {
    seq![
        Capability::Core,
        Capability::Recall,
        Capability::Portability,
        Capability::Ingest,
        Capability::Documents,
        Capability::Tree,
        Capability::Entities,
        Capability::Graph,
        Capability::Diff,
        Capability::Goals,
        Capability::ToolMemory,
        Capability::Sources,
        Capability::Maintenance,
        Capability::People,
        Capability::Chunks,
        Capability::Retrieval,
        Capability::Profile,
        Capability::Episodic,
        Capability::SourceSync,
        Capability::CodingSessions,
        Capability::Scoring,
        Capability::DocumentIngest,
        Capability::ConversationIngest,
        Capability::LearningIngest,
        Capability::EventIngest,
        Capability::Answer,
    ]
}

/// No family is left out of what the provider says it serves.
pub proof fn law_every_family_is_advertised(capability: Capability)
    ensures
        every_capability().contains(capability),
{
    let all = every_capability();
    assert(all[0] == Capability::Core);
    assert(all[1] == Capability::Recall);
    assert(all[2] == Capability::Portability);
    assert(all[3] == Capability::Ingest);
    assert(all[4] == Capability::Documents);
    assert(all[5] == Capability::Tree);
    assert(all[6] == Capability::Entities);
    assert(all[7] == Capability::Graph);
    assert(all[8] == Capability::Diff);
    assert(all[9] == Capability::Goals);
    assert(all[10] == Capability::ToolMemory);
    assert(all[11] == Capability::Sources);
    assert(all[12] == Capability::Maintenance);
    assert(all[13] == Capability::People);
    assert(all[14] == Capability::Chunks);
    assert(all[15] == Capability::Retrieval);
    assert(all[16] == Capability::Profile);
    assert(all[17] == Capability::Episodic);
    assert(all[18] == Capability::SourceSync);
    assert(all[19] == Capability::CodingSessions);
    assert(all[20] == Capability::Scoring);
    assert(all[21] == Capability::DocumentIngest);
    assert(all[22] == Capability::ConversationIngest);
    assert(all[23] == Capability::LearningIngest);
    assert(all[24] == Capability::EventIngest);
    assert(all[25] == Capability::Answer);
}

} // verus!
