use concurrency::{
    compute, delivery, multiply, plan, reply, serve, task_at, worker_for, Error, Gather, Matrix,
    Msg, MsgInput, MsgOutput, Vector, NUM_THREADS,
};

#[test]
fn the_pool_has_four_workers() {
    assert_eq!(NUM_THREADS, 4);
}

#[test]
fn workers_take_the_cells_in_turn() {
    assert_eq!(worker_for(0), 0);
    assert_eq!(worker_for(1), 1);
    assert_eq!(worker_for(3), 3);
    assert_eq!(worker_for(4), 0);
    assert_eq!(worker_for(10), 2);
    for idx in 0..100usize {
        assert_eq!(worker_for(idx), idx % 4);
        assert_eq!(worker_for(idx), worker_for(idx + NUM_THREADS));
    }
}

#[test]
fn a_task_carries_a_row_and_a_column() {
    let a = Matrix::new(vec![1, 2, 3, 4, 5, 6], 2, 3);
    let b = Matrix::new(vec![7, 8, 9, 10, 11, 12], 3, 2);
    let t = task_at(&a, &b, 3);
    assert_eq!(t.idx, 3);
    assert_eq!(t.row.as_slice(), &[4, 5, 6]);
    assert_eq!(t.col.as_slice(), &[8, 10, 12]);
    let t = task_at(&a, &b, 0);
    assert_eq!(t.idx, 0);
    assert_eq!(t.row.as_slice(), &[1, 2, 3]);
    assert_eq!(t.col.as_slice(), &[7, 9, 11]);
}

#[test]
fn a_plan_addresses_every_cell_once() {
    let (r, k, c) = (7usize, 3usize, 9usize);
    let a = Matrix::new(vec![1i32; r * k], r, k);
    let b = Matrix::new(vec![1i32; k * c], k, c);
    let tasks = plan(&a, &b);
    assert_eq!(tasks.len(), r * c);
    let mut seen = vec![0usize; r * c];
    for (n, t) in tasks.iter().enumerate() {
        assert_eq!(t.idx, n);
        assert_eq!(t.row.len(), k);
        assert_eq!(t.col.len(), k);
        seen[t.idx] += 1;
    }
    assert!(seen.iter().all(|&n| n == 1));
}

#[test]
fn compute_answers_with_the_dot_product() {
    let input = MsgInput::new(5, Vector::new(vec![1, 2, 3]), Vector::new(vec![4, 5, 6]));
    let out = compute(input).unwrap();
    assert_eq!(out.idx, 5);
    assert_eq!(out.value, 32);
}

#[test]
fn compute_refuses_operands_that_differ_in_length() {
    let input = MsgInput::new(0, Vector::new(vec![1, 2, 3]), Vector::new(vec![4, 5]));
    assert_eq!(compute(input).err(), Some(Error::SizeMismatch));
}

#[test]
fn serve_sends_the_answer_on_the_reply_channel() {
    let (tx, rx) = oneshot::channel();
    let input = MsgInput::new(2, Vector::new(vec![1, 2]), Vector::new(vec![3, 4]));
    assert_eq!(serve(Msg::new(input, tx)), Ok(()));
    let out = rx.recv().unwrap();
    assert_eq!(out.idx, 2);
    assert_eq!(out.value, 11);
}

#[test]
fn serve_survives_a_receiver_that_is_gone() {
    let (tx, rx) = oneshot::channel();
    drop(rx);
    let input = MsgInput::new(0, Vector::new(vec![1]), Vector::new(vec![1]));
    assert_eq!(serve(Msg::new(input, tx)), Err(Error::SendFailure));
}

#[test]
fn serve_drops_a_task_it_cannot_compute() {
    let (tx, rx) = oneshot::channel::<MsgOutput<i32>>();
    let input = MsgInput::new(0, Vector::new(vec![1, 2]), Vector::new(vec![1]));
    assert_eq!(serve(Msg::new(input, tx)), Err(Error::SizeMismatch));
    assert!(rx.recv().is_err());
}

#[test]
fn reply_reports_whether_the_receiver_was_there() {
    let (tx, rx) = oneshot::channel();
    assert_eq!(reply(tx, MsgOutput { idx: 1, value: 9 }), Ok(()));
    let out = rx.recv().unwrap();
    assert_eq!((out.idx, out.value), (1, 9));
    let (tx, rx) = oneshot::channel();
    drop(rx);
    assert_eq!(reply(tx, MsgOutput { idx: 1, value: 9 }), Err(Error::SendFailure));
}

#[test]
fn delivery_tells_a_send_that_arrived_from_one_that_did_not() {
    let (tx, rx) = oneshot::channel();
    assert_eq!(delivery(tx.send(MsgOutput { idx: 0, value: 5 })), Ok(()));
    assert_eq!(rx.recv().map(|out| out.value).ok(), Some(5));
    let (tx, rx) = oneshot::channel();
    drop(rx);
    assert_eq!(delivery(tx.send(MsgOutput { idx: 0, value: 5 })), Err(Error::SendFailure));
}

#[test]
fn gather_starts_with_zeros() {
    let g: Gather<i32> = Gather::new(2, 3);
    let m = g.finish();
    assert_eq!(m.row(), 2);
    assert_eq!(m.col(), 3);
    assert_eq!(m.data(), &[0, 0, 0, 0, 0, 0]);
}

#[test]
fn gather_places_answers_by_destination_in_any_order() {
    let mut g: Gather<i32> = Gather::new(2, 3);
    for idx in [4usize, 0, 5, 2, 1, 3] {
        assert_eq!(g.accept(Some(MsgOutput { idx, value: 10 * idx as i32 + 1 })), Ok(()));
    }
    assert_eq!(g.finish().data(), &[1, 11, 21, 31, 41, 51]);
}

#[test]
fn gather_fails_on_a_reply_that_never_came() {
    let mut g: Gather<i32> = Gather::new(1, 2);
    assert_eq!(g.accept(Some(MsgOutput { idx: 1, value: 7 })), Ok(()));
    assert_eq!(g.accept(None), Err(Error::ReceiveFailure));
    assert_eq!(g.finish().data(), &[0, 7]);
}

#[test]
fn gather_fails_on_an_answer_addressed_nowhere() {
    let mut g: Gather<i32> = Gather::new(1, 2);
    assert_eq!(g.accept(Some(MsgOutput { idx: 2, value: 7 })), Err(Error::ReceiveFailure));
    assert_eq!(g.finish().data(), &[0, 0]);
}

#[test]
fn tasks_served_by_workers_in_turn_fill_every_cell() {
    let (r, k, c) = (6usize, 5usize, 7usize);
    let a = Matrix::new((0..(r * k) as i64).map(|x| x % 9 - 4).collect::<Vec<_>>(), r, k);
    let b = Matrix::new((0..(k * c) as i64).map(|x| 3 - x % 7).collect::<Vec<_>>(), k, c);
    let mut queues: Vec<Vec<Msg<i64>>> = (0..NUM_THREADS).map(|_| Vec::new()).collect();
    let mut receivers = Vec::new();
    for task in plan(&a, &b) {
        let (tx, rx) = oneshot::channel();
        let worker = worker_for(task.idx);
        queues[worker].push(Msg::new(task, tx));
        receivers.push(rx);
    }
    let sizes: Vec<usize> = queues.iter().map(|q| q.len()).collect();
    assert_eq!(sizes, vec![11, 11, 10, 10]);
    for queue in queues.into_iter().rev() {
        for msg in queue {
            assert_eq!(serve(msg), Ok(()));
        }
    }
    let mut gather: Gather<i64> = Gather::new(r, c);
    for rx in receivers {
        assert_eq!(gather.accept(rx.recv().ok()), Ok(()));
    }
    let gathered = gather.finish();
    let direct = multiply(&a, &b).unwrap();
    assert_eq!(gathered.data(), direct.data());
    assert_eq!(gathered.row(), r);
    assert_eq!(gathered.col(), c);
}
