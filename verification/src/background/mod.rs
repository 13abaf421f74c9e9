//! The decisions of the background workers: the checkpoint coordinator,
//! the gauges, the choice of the snapshot to upload and the follower side of
//! replication. The workers' loops, timers and sockets belong to the caller.

pub mod checkpoint;
pub mod metrics;
pub mod replica;
pub mod s3_uploader;
pub mod types;

use crate::background::checkpoint::{CheckpointState, CheckpointWorker};
use crate::background::metrics::MetricsWorker;
use crate::background::replica::ReplicaStreamer;
use crate::background::s3_uploader::S3Uploader;
use crate::config::BackgroundConfig;
use vstd::prelude::*;

verus! {

/// The background workers of one process.
pub struct WorkerManager {
    pub checkpoint: Option<CheckpointWorker>,
    pub metrics: Option<MetricsWorker>,
    pub s3_uploader: Option<S3Uploader>,
    pub replica: Option<ReplicaStreamer>,
}

impl WorkerManager {
    /// Every worker that there is has been told to stop.
    pub open spec fn all_stopped(self) -> bool {
        &&& self.checkpoint matches Some(w) ==> w.state() == CheckpointState::Stopped
        &&& self.metrics matches Some(w) ==> !w.is_running()
        &&& self.s3_uploader matches Some(w) ==> !w.is_running()
        &&& self.replica matches Some(w) ==> !w.is_running()
    }

    /// The workers that the settings ask for: the checkpoint coordinator and
    /// the gauges always, the uploader where a bucket is configured, the
    /// replication listener where one is configured and switched on.
    pub fn new(config: &BackgroundConfig) -> (m: Self)
        ensures
            m.checkpoint matches Some(w) && w.interval() == config.checkpoint_interval_sec
                && w.state() == CheckpointState::Idle,
            m.metrics matches Some(w) && w.interval() == config.metrics_interval_ms
                && w.is_running(),
            m.s3_uploader is Some <==> config.s3 is Some,
            m.s3_uploader matches Some(u) ==> u.is_running() && u.bucket_name()
                == config.s3->0.bucket@ && u.uploads() == config.s3->0.upload_after_snapshot,
            m.replica is Some <==> (config.replica matches Some(r) && r.enabled),
            m.replica matches Some(r) ==> r.is_running() && r.addr() == config.replica->0.bind_addr@
                && r.in_sync_mode() == config.replica->0.sync_mode,
    {
        let s3_uploader = match &config.s3 {
            Some(s3) => Some(S3Uploader::new(s3.bucket.clone(), s3.upload_after_snapshot)),
            None => None,
        };
        let replica = match &config.replica {
            Some(r) => if r.enabled {
                Some(ReplicaStreamer::new(r.bind_addr.clone(), r.sync_mode))
            } else {
                None
            },
            None => None,
        };
        WorkerManager {
            checkpoint: Some(CheckpointWorker::new(config.checkpoint_interval_sec)),
            metrics: Some(MetricsWorker::new(config.metrics_interval_ms)),
            s3_uploader,
            replica,
        }
    }

    /// Tells every worker to stop. Workers that are not there stay away.
    pub fn shutdown(&mut self)
        ensures
            final(self).all_stopped(),
            final(self).checkpoint is Some <==> old(self).checkpoint is Some,
            final(self).metrics is Some <==> old(self).metrics is Some,
            final(self).s3_uploader is Some <==> old(self).s3_uploader is Some,
            final(self).replica is Some <==> old(self).replica is Some,
    {
        match &mut self.checkpoint {
            Some(worker) => {
                worker.shutdown();
            },
            None => {},
        }
        match &mut self.metrics {
            Some(worker) => {
                worker.shutdown();
            },
            None => {},
        }
        match &mut self.s3_uploader {
            Some(worker) => {
                worker.shutdown();
            },
            None => {},
        }
        match &mut self.replica {
            Some(worker) => {
                worker.shutdown();
            },
            None => {},
        }
    }
}

} // verus!
