use futures_scopes::relay::waker_park::{WaitResult, WakerPark};

#[test]
fn a_wake_up_hands_out_the_parked_wakers_in_order() {
    let mut park: WakerPark<u32> = WakerPark::new();
    let token = park.token();
    assert_eq!(park.wait(1, token), WaitResult::Parked);
    let token = park.token();
    assert_eq!(park.wait(2, token), WaitResult::Parked);
    assert_eq!(park.wake(), vec![1, 2]);
    assert_eq!(park.wake(), Vec::<u32>::new());
}
