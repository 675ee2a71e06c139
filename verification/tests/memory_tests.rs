use mira::memory::{FrameBufferPool, SlotChoice, TextureSlots};

#[test]
fn test_frame_buffer_pool_creation() {
    let pool = FrameBufferPool::new(1024, 2, 5);
    let stats = pool.get_stats();

    assert_eq!(stats.buffer_size, 1024);
    assert_eq!(stats.max_buffers, 5);
    assert_eq!(stats.allocated_count, 2);
    assert_eq!(stats.available_count, 2);
}

#[test]
fn test_frame_buffer_pool_get_return() {
    let mut pool = FrameBufferPool::new(1024, 1, 3);

    let buffer1 = pool.get_buffer();
    assert_eq!(buffer1.len(), 1024);

    let stats = pool.get_stats();
    assert_eq!(stats.available_count, 0);

    pool.return_buffer(buffer1);

    let stats = pool.get_stats();
    assert_eq!(stats.available_count, 1);
}

#[test]
fn test_frame_buffer_pool_max_limit() {
    let mut pool = FrameBufferPool::new(1024, 0, 2);

    let _buffer1 = pool.get_buffer();
    let _buffer2 = pool.get_buffer();
    let buffer3 = pool.get_buffer();

    assert_eq!(buffer3.len(), 1024);

    let stats = pool.get_stats();
    assert_eq!(stats.allocated_count, 2);
}

#[test]
fn test_pool_cleanup() {
    let mut pool = FrameBufferPool::new(1024, 4, 10);

    let _buffer1 = pool.get_buffer();
    let _buffer2 = pool.get_buffer();

    let stats_before = pool.get_stats();
    assert_eq!(stats_before.available_count, 2);

    pool.cleanup_unused();

    let stats_after = pool.get_stats();
    assert!(stats_after.available_count <= stats_before.available_count);
}

#[test]
fn performance_integration_test_test_memory_management_integration() {
    let mut pool = FrameBufferPool::new(1024, 2, 5);

    let buffer1 = pool.get_buffer();
    assert_eq!(buffer1.len(), 1024);

    let stats = pool.get_stats();
    assert_eq!(stats.buffer_size, 1024);
    assert_eq!(stats.max_buffers, 5);

    pool.return_buffer(buffer1);

    let stats_after = pool.get_stats();
    assert!(stats_after.available_count > 0);
}

#[test]
fn test_frame_buffer_pool_limits() {
    let mut pool = FrameBufferPool::new(1024, 0, 2);

    let _buffer1 = pool.get_buffer();
    let _buffer2 = pool.get_buffer();
    let buffer3 = pool.get_buffer();

    assert_eq!(buffer3.len(), 1024);

    let stats = pool.get_stats();
    assert_eq!(stats.allocated_count, 2);
}

#[test]
fn integration_tests_test_memory_management_integration() {
    let mut pool = FrameBufferPool::new(1024 * 1024, 2, 10);

    let mut buffers = Vec::new();
    for i in 0..5 {
        let buffer = pool.get_buffer();
        assert_eq!(buffer.len(), 1024 * 1024, "缓冲区 {} 大小应该正确", i);
        buffers.push(buffer);
    }

    let stats = pool.get_stats();
    assert!(stats.allocated_count <= 10, "分配的缓冲区数量不应该超过最大值");

    for buffer in buffers {
        pool.return_buffer(buffer);
    }

    let final_stats = pool.get_stats();
    assert!(final_stats.available_count > 0, "应该有可用的缓冲区");
}

#[test]
fn reused_buffers_come_back_zeroed() {
    let mut pool = FrameBufferPool::new(4, 0, 2);
    let mut b = pool.get_buffer();
    b[0] = 9;
    b[3] = 7;
    pool.return_buffer(b);
    assert_eq!(pool.get_stats().available_count, 1);
    let again = pool.get_buffer();
    assert_eq!(again, vec![0u8; 4]);
    assert_eq!(pool.get_stats().available_count, 0);
    assert_eq!(pool.get_stats().allocated_count, 1);
}

#[test]
fn small_or_surplus_buffers_are_dropped() {
    let mut pool = FrameBufferPool::new(16, 1, 1);
    pool.return_buffer_with_capacity(vec![0u8; 4], 4);
    assert_eq!(pool.get_stats().available_count, 1);
    let b = pool.get_buffer();
    pool.return_buffer(b);
    pool.return_buffer(vec![0u8; 16]);
    assert_eq!(pool.get_stats().available_count, 1);
}

#[test]
fn cleanup_keeps_half_and_lowers_the_count() {
    let mut pool = FrameBufferPool::new(8, 6, 10);
    pool.cleanup_unused();
    let stats = pool.get_stats();
    assert_eq!(stats.available_count, 3);
    assert_eq!(stats.allocated_count, 3);
    let mut one = FrameBufferPool::new(8, 1, 10);
    one.cleanup_unused();
    assert_eq!(one.get_stats().available_count, 1);
}

#[test]
fn texture_slots_reuse_fill_and_replace() {
    let a = (64, 64, 1, 1, 6);
    let b = (32, 32, 1, 2, 6);
    let c = (16, 16, 1, 1, 6);
    let mut slots = TextureSlots::new(2);
    assert_eq!(slots.capacity(), 2);
    assert_eq!(slots.acquire(a), SlotChoice::Create(0));
    assert_eq!(slots.acquire(a), SlotChoice::Reuse(0));
    assert_eq!(slots.acquire(b), SlotChoice::Create(1));
    assert_eq!(slots.cached_textures(), 2);
    assert_eq!(slots.total_usage(), 3);
    // Slot 1 is used less than slot 0, so it is the one replaced.
    assert_eq!(slots.acquire(c), SlotChoice::Replace(1));
    assert_eq!(slots.acquire(c), SlotChoice::Reuse(1));
    assert!(slots.headroom());
}

#[test]
fn texture_slot_cleanup_counts_down_then_frees() {
    let a = (8, 8, 1, 1, 1);
    let mut slots = TextureSlots::new(3);
    slots.acquire(a);
    assert_eq!(slots.total_usage(), 1);
    slots.cleanup();
    assert_eq!(slots.cached_textures(), 1);
    assert_eq!(slots.total_usage(), 0);
    slots.cleanup();
    assert_eq!(slots.cached_textures(), 0);
    assert_eq!(slots.acquire(a), SlotChoice::Create(0));
}
