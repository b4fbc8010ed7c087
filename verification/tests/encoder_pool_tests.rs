use wavry_core::encoder_pool::{
    EncoderConfig, EncoderPool, EncoderPoolConfig, MemoryPressure, PooledEncoder,
    ReferenceFrameManager, StagingBufferPool,
};

fn hd_config() -> EncoderConfig {
    EncoderConfig {
        codec: 0,
        width: 1920,
        height: 1080,
        bitrate_kbps: 5000,
        fps: 60,
    }
}

#[test]
fn test_encoder_config_equality() {
    let config1 = EncoderConfig {
        codec: 0,
        width: 1920,
        height: 1080,
        bitrate_kbps: 5000,
        fps: 60,
    };
    let config2 = EncoderConfig {
        codec: 0,
        width: 1920,
        height: 1080,
        bitrate_kbps: 5000,
        fps: 60,
    };
    assert_eq!(config1, config2);
}

#[test]
fn test_pooled_encoder_creation() {
    let config = hd_config();
    let encoder = PooledEncoder::new(1, config.clone());

    assert_eq!(encoder.id, 1);
    assert_eq!(encoder.config, config);
    assert_eq!(encoder.frames_encoded, 0);
    assert!(encoder.is_healthy);
}

#[test]
fn test_pooled_encoder_health() {
    let mut encoder = PooledEncoder::new(1, hd_config());

    assert!(encoder.is_healthy);
    encoder.mark_unhealthy();
    assert!(!encoder.is_healthy);
}

#[test]
fn test_reference_frame_manager_keyframe() {
    let mut manager = ReferenceFrameManager::new(3);

    manager.update(0, true, 10);
    manager.update(1, false, 5);
    manager.update(2, false, 5);

    assert_eq!(manager.reference_count(), 3);

    manager.update(3, true, 10);
    assert!(manager
        .references
        .iter()
        .all(|rf| rf.is_keyframe || rf.frame_id == 3));
}

#[test]
fn test_reference_frame_manager_limit() {
    let mut manager = ReferenceFrameManager::new(2);

    manager.update(0, true, 10);
    manager.update(1, true, 10);
    manager.update(2, true, 10);

    assert_eq!(manager.reference_count(), 2);
}

#[test]
fn test_reference_frame_total_memory() {
    let mut manager = ReferenceFrameManager::new(5);

    manager.update(0, true, 10);
    manager.update(1, false, 5);
    manager.update(2, false, 5);

    assert_eq!(manager.total_memory_mb(), 20);
}

#[test]
fn test_staging_buffer_pool_register() {
    let mut pool = StagingBufferPool::new(1000, 100);

    let _id1 = pool.register(100);
    let _id2 = pool.register(200);

    assert_eq!(pool.buffers.len(), 2);
    assert_eq!(pool.total_memory_bytes(), 300);
}

#[test]
fn test_staging_buffer_pool_memory_pressure() {
    let mut pool = StagingBufferPool::new(1000, 100);

    pool.register(200);
    assert_eq!(pool.memory_pressure(), MemoryPressure::Low);

    pool.register(400);
    assert_eq!(pool.memory_pressure(), MemoryPressure::Medium);

    pool.register(400);
    assert_eq!(pool.memory_pressure(), MemoryPressure::High);
}

#[test]
fn test_staging_buffer_pool_prune() {
    let mut pool = StagingBufferPool::new(1000, 10);

    let id1 = pool.register(100);
    pool.use_buffer(id1);

    pool.current_frame_id = 20;
    pool.advance_frame();

    assert!(pool.buffers.is_empty());
}

#[test]
fn staging_buffer_kept_within_timeout() {
    let mut pool = StagingBufferPool::new(1000, 10);
    let id = pool.register(100);
    pool.current_frame_id = 5;
    pool.use_buffer(id);
    pool.advance_frame();
    assert_eq!(pool.buffers.len(), 1);
    assert_eq!(pool.total_memory_bytes(), 100);
}

#[test]
fn test_encoder_pool_acquire() {
    let config = EncoderPoolConfig {
        max_encoders_per_config: 2,
        track_stats: true,
    };
    let mut pool = EncoderPool::new(config);

    let _encoder = pool.acquire(hd_config());
    assert_eq!(pool.active_count(), 1);
    assert_eq!(pool.idle_count(), 0);
}

#[test]
fn test_encoder_pool_reuse() {
    let config = EncoderPoolConfig {
        max_encoders_per_config: 2,
        track_stats: true,
    };
    let mut pool = EncoderPool::new(config);

    let encoder_config = hd_config();

    let encoder1 = pool.acquire(encoder_config.clone());
    let id1 = encoder1.id;
    pool.release(encoder1);

    let encoder2 = pool.acquire(encoder_config);
    let id2 = encoder2.id;

    assert_eq!(id1, id2);
    assert_eq!(pool.idle_count(), 0);
}

#[test]
fn test_encoder_pool_max_size() {
    let config = EncoderPoolConfig {
        max_encoders_per_config: 2,
        track_stats: true,
    };
    let mut pool = EncoderPool::new(config);

    let encoder_config = hd_config();

    let enc1 = pool.acquire(encoder_config.clone());
    let enc2 = pool.acquire(encoder_config.clone());
    let enc3 = pool.acquire(encoder_config.clone());

    pool.release(enc1);
    pool.release(enc2);
    pool.release(enc3);

    assert_eq!(pool.idle_count(), 2);
}

#[test]
fn test_encoder_pool_healthy_only() {
    let config = EncoderPoolConfig {
        max_encoders_per_config: 2,
        track_stats: true,
    };
    let mut pool = EncoderPool::new(config);

    let mut encoder = pool.acquire(hd_config());
    encoder.mark_unhealthy();
    pool.release(encoder);

    assert_eq!(pool.idle_count(), 0);
}

#[test]
fn test_encoder_pool_stats() {
    let config = EncoderPoolConfig {
        max_encoders_per_config: 2,
        track_stats: true,
    };
    let mut pool = EncoderPool::new(config);

    let encoder_config = hd_config();

    let encoder1 = pool.acquire(encoder_config.clone());
    pool.release(encoder1);

    let encoder2 = pool.acquire(encoder_config);
    pool.release(encoder2);

    let stats = pool.stats();
    assert_eq!(stats.total_created, 1);
    assert_eq!(stats.reuses, 1);
}

#[test]
fn encoder_needs_reconfiguration_on_change() {
    let encoder = PooledEncoder::new(3, hd_config());
    let mut other = hd_config();
    assert!(!encoder.needs_reconfiguration(&other));
    other.bitrate_kbps = 8000;
    assert!(encoder.needs_reconfiguration(&other));
}

#[test]
fn encoder_limit_counts_each_config_apart() {
    let mut pool = EncoderPool::new(EncoderPoolConfig { max_encoders_per_config: 2, track_stats: true });
    let a = hd_config();
    let b = EncoderConfig { codec: 1, width: 1280, height: 720, bitrate_kbps: 3000, fps: 30 };
    pool.acquire(a.clone());
    pool.acquire(b);
    let e = pool.acquire(a.clone());
    assert_eq!(e.config, a);
    assert_eq!(pool.active_count(), 3);
    assert_eq!(pool.stats().total_created, 3);
    let extra = pool.acquire(a.clone());
    assert_eq!(extra.config, a);
    assert_eq!(pool.active_count(), 3);
}

#[test]
fn staging_ids_stay_fresh_after_prune() {
    let mut p = StagingBufferPool::new(1000, 10);
    let a = p.register(100);
    p.current_frame_id = 5;
    let b = p.register(200);
    p.current_frame_id = 14;
    p.advance_frame();
    assert!(!p.buffers.contains_key(&a));
    let c = p.register(300);
    assert_ne!(c, b);
    assert_eq!(p.buffers.len(), 2);
    assert_eq!(p.total_memory_bytes(), 500);
    assert_eq!(p.buffers[&b].size_bytes, 200);
}

#[test]
fn keyframe_keeps_only_recent_keyframes() {
    let mut m = ReferenceFrameManager::new(2);
    m.update(0, true, 10);
    m.update(1, false, 5);
    m.update(2, true, 10);
    m.update(3, true, 10);
    assert_eq!(m.reference_count(), 2);
    assert_eq!(m.references.iter().map(|r| r.frame_id).collect::<Vec<_>>(), vec![2, 3]);
    assert!(m.references.iter().all(|r| r.is_keyframe));
}
