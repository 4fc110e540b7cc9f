use game_transport::buffer::SimpleBufferPool;

#[test]
fn it_works() {
    assert_eq!(2 + 2, 4);
}

#[test]
fn acquire_gives_zeroed_buffer_of_exact_capacity() {
    let pool = SimpleBufferPool(32);
    let buffer = pool.acquire();
    assert_eq!(buffer, vec![0u8; 32]);
    assert_eq!(SimpleBufferPool(0).acquire(), Vec::<u8>::new());
}
