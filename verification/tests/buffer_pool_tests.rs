use wavry_core::buffer_pool::{FrameBufferPool, FrameBufferPoolConfig};
use wavry_core::reorder::{ReorderBuffer, ReorderError};

#[test]
fn test_frame_buffer_pool_acquire_and_release() {
    let config = FrameBufferPoolConfig {
        max_pool_size: 2,
        buffer_size_bytes: 1024,
        track_stats: true,
    };
    let mut pool = FrameBufferPool::new(config);

    let buf1 = pool.acquire();
    assert_eq!(buf1.capacity(), 1024);
    assert_eq!(pool.in_use_count(), 1);
    assert_eq!(pool.available_count(), 0);

    pool.release(buf1);
    assert_eq!(pool.in_use_count(), 0);
    assert_eq!(pool.available_count(), 1);
}

#[test]
fn test_frame_buffer_pool_reuse() {
    let config = FrameBufferPoolConfig {
        max_pool_size: 2,
        buffer_size_bytes: 1024,
        track_stats: true,
    };
    let mut pool = FrameBufferPool::new(config);

    let buf1 = pool.acquire();
    let id1 = buf1.id();
    pool.release(buf1);

    let buf2 = pool.acquire();
    let id2 = buf2.id();

    assert_eq!(id1, id2);

    let stats = pool.stats();
    assert_eq!(stats.allocations, 1);
    assert_eq!(stats.reuses, 1);
}

#[test]
fn test_frame_buffer_pool_max_size() {
    let config = FrameBufferPoolConfig {
        max_pool_size: 2,
        buffer_size_bytes: 1024,
        track_stats: true,
    };
    let mut pool = FrameBufferPool::new(config);

    let buf1 = pool.acquire();
    let buf2 = pool.acquire();
    let buf3 = pool.acquire();

    pool.release(buf1);
    pool.release(buf2);
    pool.release(buf3);

    assert_eq!(pool.available_count(), 2);
}

#[test]
fn test_frame_buffer_pool_memory_usage() {
    let config = FrameBufferPoolConfig {
        max_pool_size: 3,
        buffer_size_bytes: 1024,
        track_stats: true,
    };
    let mut pool = FrameBufferPool::new(config);

    let buf1 = pool.acquire();
    let buf2 = pool.acquire();

    assert_eq!(pool.memory_usage_bytes(), 2048);

    pool.release(buf1);

    assert_eq!(pool.memory_usage_bytes(), 2048);

    pool.release(buf2);

    assert_eq!(pool.memory_usage_bytes(), 2048);
}

#[test]
fn frame_buffer_reset_clears_data() {
    let config = FrameBufferPoolConfig {
        max_pool_size: 1,
        buffer_size_bytes: 16,
        track_stats: true,
    };
    let mut pool = FrameBufferPool::new(config);
    let mut buf = pool.acquire();
    buf.data_mut()[0] = 7;
    assert_eq!(buf.data()[0], 7);
    buf.reset();
    assert!(buf.data().iter().all(|b| *b == 0));
}

#[test]
fn test_reorder_buffer_sequential() {
    let mut buf = ReorderBuffer::new(100);

    buf.insert(0, vec![1]).unwrap();
    buf.insert(1, vec![2]).unwrap();
    buf.insert(2, vec![3]).unwrap();

    let flushed = buf.flush_ordered();
    assert_eq!(flushed.len(), 3);
}

#[test]
fn test_reorder_buffer_out_of_order() {
    let mut buf = ReorderBuffer::new(100);

    buf.insert(2, vec![3]).unwrap();
    buf.insert(0, vec![1]).unwrap();
    buf.insert(1, vec![2]).unwrap();

    let flushed = buf.flush_ordered();
    assert_eq!(flushed.len(), 3);
    assert_eq!(flushed[0][0], 1);
    assert_eq!(flushed[1][0], 2);
    assert_eq!(flushed[2][0], 3);
}

#[test]
fn test_reorder_buffer_too_old() {
    let mut buf = ReorderBuffer::new(10);

    buf.insert(5, vec![5]).unwrap();
    // Slide the window to start at 10: packet 19 is then its newest position.
    buf.insert(19, vec![19]).unwrap();
    assert_eq!(buf.window_start(), 10);

    let result = buf.insert(5, vec![5]);
    assert_eq!(result, Err(ReorderError::PacketTooOld));
}

#[test]
fn test_reorder_buffer_window_slide() {
    let mut buf = ReorderBuffer::new(10);

    buf.insert(0, vec![0]).unwrap();
    buf.insert(5, vec![5]).unwrap();
    buf.insert(15, vec![15]).unwrap();

    assert!(buf.window_start() >= 5);
}

#[test]
fn reorder_slide_keeps_packets_at_their_own_numbers() {
    let mut buf = ReorderBuffer::new(10);
    buf.insert(0, vec![0]).unwrap();
    buf.insert(5, vec![5]).unwrap();
    buf.insert(15, vec![15]).unwrap();
    assert_eq!(buf.window_start(), 6);
    assert_eq!(buf.get(5), None);
    assert_eq!(buf.get(15), Some(vec![15]));
    assert_eq!(buf.memory_usage_bytes(), 0);
}

#[test]
fn reorder_far_jump_starts_window_before_packet() {
    let mut buf = ReorderBuffer::new(10);
    buf.insert(3, vec![3]).unwrap();
    buf.insert(100, vec![1, 0, 0]).unwrap();
    assert_eq!(buf.window_start(), 91);
    assert_eq!(buf.packet_count(), 1);
    assert_eq!(buf.get(100), Some(vec![1, 0, 0]));
}

#[test]
fn reorder_overwrite_counts_current_bytes() {
    let mut buf = ReorderBuffer::new(10);
    buf.insert(0, vec![1]).unwrap();
    buf.insert(0, vec![2]).unwrap();
    assert_eq!(buf.memory_usage_bytes(), 1);
    assert_eq!(buf.get(0), Some(vec![2]));
    assert_eq!(buf.memory_usage_bytes(), 0);
}

#[test]
fn test_reorder_buffer_memory_tracking() {
    let mut buf = ReorderBuffer::new(100);

    buf.insert(0, vec![0u8; 1000]).unwrap();
    buf.insert(1, vec![0u8; 500]).unwrap();

    assert_eq!(buf.memory_usage_bytes(), 1500);

    buf.flush_ordered();
    assert_eq!(buf.memory_usage_bytes(), 0);
}

#[test]
fn test_reorder_buffer_get() {
    let mut buf = ReorderBuffer::new(100);

    buf.insert(0, vec![42]).unwrap();
    buf.insert(1, vec![99]).unwrap();

    assert_eq!(buf.get(0), Some(vec![42]));
    assert_eq!(buf.get(1), Some(vec![99]));
    assert_eq!(buf.get(1), None);
}

#[test]
fn reorder_flush_stops_at_gap_and_counts_packets() {
    let mut buf = ReorderBuffer::new(8);
    buf.insert(0, vec![0]).unwrap();
    buf.insert(2, vec![2]).unwrap();
    assert_eq!(buf.packet_count(), 2);
    let flushed = buf.flush_ordered();
    assert_eq!(flushed, vec![vec![0u8]]);
    assert_eq!(buf.window_start(), 1);
    assert_eq!(buf.packet_count(), 1);
    assert_eq!(buf.max_seen(), 2);
}
