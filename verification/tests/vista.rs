use std::convert::Infallible;
use std::sync::{Arc, RwLock};
use substratum::vista::{
    ArcRwLockView, ArcView, View, ViewError, ViewExt, ViewMut, ViewMutExt,
};

struct User {
    id: u64,
    name: String,
    scores: Vec<u32>,
}

struct AppState {
    users: Vec<User>,
}

fn app_state() -> Arc<RwLock<AppState>> {
    Arc::new(RwLock::new(AppState {
        users: vec![User { id: 1, name: "Alice".to_string(), scores: vec![10, 20, 30] }],
    }))
}

#[test]
fn mutating_a_nested_value_through_a_locked_view() {
    let state_view = ArcRwLockView::new(app_state());

    let mut_view = state_view
        .clone()
        .try_map_mut(|app: &mut AppState| app.users.get_mut(0).ok_or(ViewError::IndexOutOfBounds(0)))
        .map_mut(|user: &mut User| &mut user.scores)
        .try_map_mut(|scores: &mut Vec<u32>| scores.get_mut(1).ok_or(ViewError::IndexOutOfBounds(1)));

    mut_view
        .view_mut(&mut |score: &mut u32| {
            *score = 25;
            Ok(())
        })
        .expect("Failed to mutate the score");

    state_view
        .view(&mut |x: &AppState| {
            assert_eq!(x.users[0].scores[1], 25);
            assert_eq!(x.users[0].id, 1);
            assert_eq!(x.users[0].name, "Alice");
            Ok(())
        })
        .expect("Failed to read the score");
}

#[test]
fn a_failed_projection_is_the_error_of_the_view() {
    let state_view = ArcRwLockView::new(app_state());
    let missing = state_view
        .clone()
        .try_map(|app: &AppState| app.users.get(3).ok_or(ViewError::IndexOutOfBounds(3)));
    let mut called = false;
    let r = missing.view(&mut |_u: &User| {
        called = true;
        Ok(())
    });
    assert!(matches!(r, Err(ViewError::IndexOutOfBounds(3))));
    assert!(!called);
}

#[test]
fn the_callback_error_is_returned() {
    let view: ArcView<Vec<u8>, ViewError> = ArcView::new(Arc::new(vec![1, 2, 3]));
    let r = view.view(&mut |_v: &Vec<u8>| Err(ViewError::LockBusy));
    assert!(matches!(r, Err(ViewError::LockBusy)));
}

#[test]
fn arc_view_lends_the_shared_value() {
    let shared = Arc::new(String::from("hello"));
    let view: ArcView<String> = ArcView::from(shared.clone());
    let mut seen = String::new();
    let r: Result<(), Infallible> = view.view(&mut |s: &String| {
        seen.push_str(s);
        Ok(())
    });
    assert!(r.is_ok());
    assert_eq!(seen, "hello");
    assert!(Arc::ptr_eq(&view.clone().inner, &shared));
    assert_eq!(view.len(), 5);
}

#[test]
fn computed_views_lend_the_computed_value() {
    let view: ArcView<Vec<u32>, ViewError> = ArcView::new(Arc::new(vec![4, 5, 6]));
    let len_view = view.compute(|v: &Vec<u32>| Ok(v.len()));
    let mut seen = 0;
    len_view
        .view(&mut |n: &usize| {
            seen = *n;
            Ok(())
        })
        .unwrap();
    assert_eq!(seen, 3);

    let failing = ArcView::<Vec<u32>, ViewError>::new(Arc::new(vec![]))
        .compute(|v: &Vec<u32>| v.first().copied().ok_or(ViewError::IndexOutOfBounds(0)));
    assert!(matches!(
        failing.view(&mut |_x: &u32| Ok(())),
        Err(ViewError::IndexOutOfBounds(0))
    ));
}

#[test]
fn computed_mutable_views_may_change_the_source() {
    let state_view = ArcRwLockView::new(Arc::new(RwLock::new(vec![1u32, 2, 3])));
    let popped = state_view.clone().compute_mut(|v: &mut Vec<u32>| {
        v.pop().ok_or(ViewError::IndexOutOfBounds(0))
    });
    let mut last = 0;
    popped
        .view_mut(&mut |x: &mut u32| {
            last = *x;
            Ok(())
        })
        .unwrap();
    assert_eq!(last, 3);
    state_view
        .view(&mut |v: &Vec<u32>| {
            assert_eq!(v, &vec![1, 2]);
            Ok(())
        })
        .unwrap();
}

#[test]
fn a_frozen_view_reads_through_the_mutable_one() {
    let state_view = ArcRwLockView::new(Arc::new(RwLock::new((7u8, 9u8))));
    let second = state_view.clone().map_mut(|p: &mut (u8, u8)| &mut p.1).freeze();
    let mut seen = 0;
    second
        .view(&mut |x: &u8| {
            seen = *x;
            Ok(())
        })
        .unwrap();
    assert_eq!(seen, 9);
    let first = state_view.map(|p: &(u8, u8)| &p.0);
    first
        .view(&mut |x: &u8| {
            assert_eq!(*x, 7);
            Ok(())
        })
        .unwrap();
}

#[test]
fn view_error_messages() {
    assert_eq!(ViewError::IndexOutOfBounds(12).message(), "Index 12 is out of bounds");
    assert_eq!(
        ViewError::LockPoisoned("boom".to_string()).message(),
        "Synchronization lock poisoned: boom"
    );
    assert_eq!(
        ViewError::LockBusy.message(),
        "Resource is currently locked and try_lock failed"
    );
    assert_eq!(ViewError::Other("custom".to_string()).message(), "custom");
}

#[test]
fn a_view_of_a_busy_lock_fails_without_waiting() {
    let state_view = ArcRwLockView::new(Arc::new(RwLock::new(vec![1u32, 2, 3])));
    let inner = state_view.clone();
    let mut nested = None;
    state_view
        .view(&mut |_v: &Vec<u32>| {
            nested = Some(inner.view_mut(&mut |v: &mut Vec<u32>| {
                v.push(4);
                Ok(())
            }));
            Ok(())
        })
        .unwrap();
    assert!(matches!(nested, Some(Err(ViewError::LockBusy))));
    let mut shared_read = None;
    state_view
        .view(&mut |_v: &Vec<u32>| {
            shared_read = Some(inner.view(&mut |v: &Vec<u32>| {
                assert_eq!(v.len(), 3);
                Ok(())
            }));
            Ok(())
        })
        .unwrap();
    assert!(matches!(shared_read, Some(Ok(()))));
}
