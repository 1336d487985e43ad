//! The memory pool, buffers and the device-memory allocator.

use reassembly::memory::GpuMemoryAllocator;
use reassembly::memory::GpuMemoryStrategy;
use reassembly::memory::MemoryBuffer;
use reassembly::memory::MemoryError;
use reassembly::memory::MemoryPool;

#[test]
fn test_memory_pool() {
    let mut pool = MemoryPool::new(1024 * 1024); // 1MB pool

    // Allocate buffer
    let mut buffer1 = pool.allocate(1024).unwrap();
    assert_eq!(buffer1.capacity(), 1024);
    assert_eq!(pool.used(), 1024);

    // Write and read
    buffer1.write(&b"Hello, REASSEMBLY!".to_vec()).unwrap();
    let data = buffer1.read();
    assert_eq!(&data[..18], b"Hello, REASSEMBLY!");

    // Return to pool
    pool.free(buffer1);

    // Allocate again (should reuse)
    let buffer2 = pool.allocate(512).unwrap();
    assert_eq!(buffer2.size(), 512);
}

#[test]
fn test_gpu_locking() {
    let mut buffer = MemoryBuffer::new(1024);

    // Lock for GPU
    buffer.lock_for_gpu().unwrap();

    // Can't write while locked
    assert!(buffer.write(&b"test".to_vec()).is_err());

    // Unlock
    buffer.unlock_from_gpu();

    // Now can write
    assert!(buffer.write(&b"test".to_vec()).is_ok());
}

#[test]
fn pool_accounting_over_allocate_free_clear() {
    let mut pool = MemoryPool::new(4096);
    let a = pool.allocate(1000).unwrap();
    let b = pool.allocate(2000).unwrap();
    assert_eq!(pool.used(), 3000);
    assert!(pool.used() <= pool.total());

    pool.free(a);
    assert_eq!(pool.used(), 2000);
    pool.free(b);
    assert_eq!(pool.used(), 0);

    let c = pool.allocate(4096).unwrap();
    assert_eq!(pool.used(), 4096);
    pool.free(c);
    pool.clear();
    assert_eq!(pool.used(), 0);
}

#[test]
fn pool_exhaustion_refuses_and_keeps_nothing() {
    // A 1 KiB pool cannot grant a 2 KiB buffer; the account stays level.
    let mut pool = MemoryPool::new(1024);
    let before = pool.used();
    match pool.allocate(2048) {
        Err(MemoryError::PoolExhausted) => {}
        other => panic!("expected exhaustion, got {:?}", other.map(|_| ())),
    }
    assert_eq!(pool.used(), before);
    assert_eq!(pool.used(), 0);
}

#[test]
fn double_lock_and_double_pin_are_refused() {
    let mut buffer = MemoryBuffer::new(16);
    assert!(buffer.lock_for_gpu().is_ok());
    assert_eq!(buffer.lock_for_gpu(), Err(MemoryError::AlreadyGpuLocked));
    buffer.unlock_from_gpu();
    assert!(buffer.lock_for_gpu().is_ok());

    assert!(buffer.pin().is_ok());
    assert_eq!(buffer.pin(), Err(MemoryError::AlreadyPinned));
    buffer.unpin();
    assert!(buffer.pin().is_ok());
}

#[test]
fn write_larger_than_capacity_is_refused() {
    let mut buffer = MemoryBuffer::new(4);
    assert_eq!(buffer.write(&vec![1, 2, 3, 4, 5]), Err(MemoryError::DataTooLarge));
    assert!(buffer.write(&vec![9, 8, 7, 6]).is_ok());
    assert_eq!(buffer.read(), vec![9, 8, 7, 6]);
}

#[test]
fn gpu_memory_allocator_watermark() {
    let mut alloc = GpuMemoryAllocator::new(GpuMemoryStrategy::FirstFit, 1000);
    let h1 = alloc.allocate(400).unwrap();
    assert_eq!(h1.offset, 0);
    assert_eq!(h1.size, 400);
    let h2 = alloc.allocate(600).unwrap();
    assert_eq!(h2.offset, 400);
    assert_eq!(alloc.allocate(1), Err(MemoryError::PoolExhausted));
    alloc.free(h2);
    let h3 = alloc.allocate(100).unwrap();
    assert_eq!(h3.size, 100);
}
