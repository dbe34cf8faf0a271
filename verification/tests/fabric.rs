use void_orchestrator::args::{take_pipe_end, take_socket_end};
use void_orchestrator::error::Error;
use void_orchestrator::fabric::{
    create_pipes, create_sockets, find_pipe, find_socket, PipePair, SocketPair,
};
use void_orchestrator::specification::Pipe;

#[test]
fn pipe_ends_are_taken_once() {
    let mut pair = PipePair::new("p", 5, 6);
    assert_eq!(pair.take_read(), Ok(5));
    assert_eq!(pair.take_read(), Err(Error::BadPipe("p".to_string())));
    assert_eq!(pair.take_write(), Ok(6));
    assert_eq!(pair.take_write(), Err(Error::BadPipe("p".to_string())));
}

#[test]
fn socket_ends_are_taken_once() {
    let mut pair = SocketPair::new("s", 7, 8);
    assert_eq!(pair.write(), Ok(8));
    assert_eq!(pair.write(), Ok(8));
    assert_eq!(pair.take_read(), Ok(7));
    assert_eq!(pair.take_read(), Err(Error::BadFileSocket("s".to_string())));
    assert_eq!(pair.take_write(), Ok(8));
    assert_eq!(pair.write(), Err(Error::BadFileSocket("s".to_string())));
    assert_eq!(pair.take_write(), Err(Error::BadFileSocket("s".to_string())));
}

#[test]
fn fabric_is_built_in_order() {
    let names = vec!["a".to_string(), "b".to_string()];
    let pipes = create_pipes(&names, &vec![(3, 4), (5, 6)]);
    assert_eq!(pipes, vec![PipePair::new("a", 3, 4), PipePair::new("b", 5, 6)]);
    let sockets = create_sockets(&names, &vec![(7, 8), (9, 10)]);
    assert_eq!(sockets, vec![SocketPair::new("a", 7, 8), SocketPair::new("b", 9, 10)]);
    assert_eq!(find_pipe(&pipes, &"b".to_string()), Some(1));
    assert_eq!(find_pipe(&pipes, &"c".to_string()), None);
    assert_eq!(find_socket(&sockets, &"a".to_string()), Some(0));
    assert_eq!(find_socket(&sockets, &"".to_string()), None);
    assert!(create_pipes(&vec![], &vec![]).is_empty());
}

#[test]
fn ends_are_taken_out_of_the_fabric_by_name() {
    let names = vec!["a".to_string(), "b".to_string()];
    let mut pipes = create_pipes(&names, &vec![(3, 4), (5, 6)]);
    assert_eq!(take_pipe_end(&mut pipes, &Pipe::Tx("b".to_string())), Ok(6));
    assert_eq!(
        take_pipe_end(&mut pipes, &Pipe::Tx("b".to_string())),
        Err(Error::BadPipe("b".to_string()))
    );
    assert_eq!(take_pipe_end(&mut pipes, &Pipe::Rx("b".to_string())), Ok(5));
    assert_eq!(
        take_pipe_end(&mut pipes, &Pipe::Rx("zz".to_string())),
        Err(Error::BadPipe("zz".to_string()))
    );
    assert_eq!(pipes[0], PipePair::new("a", 3, 4));
    let mut sockets = create_sockets(&names, &vec![(7, 8), (9, 10)]);
    assert_eq!(take_socket_end(&mut sockets, &"a".to_string()), Ok(7));
    assert_eq!(
        take_socket_end(&mut sockets, &"a".to_string()),
        Err(Error::BadFileSocket("a".to_string()))
    );
    assert_eq!(sockets[0].write(), Ok(8));
    assert_eq!(sockets[1], SocketPair::new("b", 9, 10));
}
