use ambient_air::long_write::{LongWriteAccumulator, LongWriteError};
use ambient_air::services::AttRequest;
use ambient_air::long_write::ConnectionContext;

#[test]
fn fragments_in_order_are_joined() {
    let mut acc = LongWriteAccumulator::new();
    assert!(acc.prepare(7, 0, b"{\"every_x").is_ok());
    assert!(acc.prepare(7, 9, b"_seconds\":5}").is_ok());
    let (data, handle) = acc.execute();
    assert_eq!(data, b"{\"every_x_seconds\":5}");
    assert_eq!(handle, 7);
}

#[test]
fn fragment_for_other_handle_is_refused() {
    let mut acc = LongWriteAccumulator::new();
    acc.prepare(7, 0, &[1, 2]).unwrap();
    assert_eq!(acc.prepare(8, 2, &[3]), Err(LongWriteError::UnexpectedHandle));
    assert_eq!(acc.execute().0, &[1, 2]);
}

#[test]
fn fragment_out_of_order_is_refused() {
    let mut acc = LongWriteAccumulator::new();
    acc.prepare(7, 0, &[1, 2]).unwrap();
    assert_eq!(acc.prepare(7, 3, &[3]), Err(LongWriteError::IncorrectLength));
    assert_eq!(acc.prepare(7, 1, &[3]), Err(LongWriteError::IncorrectLength));
    assert_eq!(acc.execute(), (&[1u8, 2][..], 7));
}

#[test]
fn first_fragment_at_wrong_offset_still_fixes_the_handle() {
    let mut acc = LongWriteAccumulator::new();
    assert_eq!(acc.prepare(9, 4, &[1]), Err(LongWriteError::IncorrectLength));
    assert_eq!(acc.execute(), (&[][..], 9));
}

#[test]
fn overflowing_fragment_is_refused() {
    let mut acc = LongWriteAccumulator::new();
    acc.prepare(1, 0, &[0u8; 1000]).unwrap();
    assert_eq!(acc.prepare(1, 1000, &[0u8; 25]), Err(LongWriteError::IncorrectLength));
    assert!(acc.prepare(1, 1000, &[0u8; 24]).is_ok());
    assert_eq!(acc.execute().0.len(), 1024);
}

#[test]
fn reset_starts_over() {
    let mut acc = LongWriteAccumulator::default();
    acc.prepare(1, 0, &[5]).unwrap();
    acc.reset();
    assert!(acc.prepare(2, 0, &[6]).is_ok());
    assert_eq!(acc.execute(), (&[6u8][..], 2));
}

#[test]
fn error_names() {
    assert_eq!(LongWriteError::UnexpectedHandle.name(), "UnexpectedHandle");
    assert_eq!(LongWriteError::IncorrectLength.name(), "IncorrectLength");
}

#[test]
fn connection_routes_prepare_and_execute() {
    let mut ctx = ConnectionContext { long_write: LongWriteAccumulator::new() };
    assert!(ctx.on_request(&AttRequest::PrepareWrite { handle: 3, offset: 0, value: &[1, 2] }).is_none());
    assert!(ctx.on_request(&AttRequest::PrepareWrite { handle: 3, offset: 2, value: &[3] }).is_none());
    assert!(ctx.on_request(&AttRequest::Other).is_none());
    assert_eq!(ctx.on_request(&AttRequest::ExecuteWrite), Some((vec![1, 2, 3], 3)));
}

#[test]
fn execute_starts_a_fresh_long_write() {
    let mut ctx = ConnectionContext { long_write: LongWriteAccumulator::new() };
    ctx.on_request(&AttRequest::PrepareWrite { handle: 3, offset: 0, value: &[9] });
    assert_eq!(ctx.on_request(&AttRequest::ExecuteWrite), Some((vec![9], 3)));
    assert!(ctx.on_request(&AttRequest::PrepareWrite { handle: 4, offset: 0, value: &[8, 7] }).is_none());
    assert_eq!(ctx.on_request(&AttRequest::ExecuteWrite), Some((vec![8, 7], 4)));
}

#[test]
fn refused_fragment_is_dropped_by_the_connection() {
    let mut ctx = ConnectionContext { long_write: LongWriteAccumulator::new() };
    ctx.on_request(&AttRequest::PrepareWrite { handle: 3, offset: 0, value: &[1] });
    ctx.on_request(&AttRequest::PrepareWrite { handle: 5, offset: 1, value: &[2] });
    ctx.on_request(&AttRequest::PrepareWrite { handle: 3, offset: 5, value: &[2] });
    assert_eq!(ctx.on_request(&AttRequest::ExecuteWrite), Some((vec![1], 3)));
}
