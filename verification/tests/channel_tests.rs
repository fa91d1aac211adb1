use best_bot::channel_return::{unbounded, ChannelClosed, Poll, Received};
use best_bot::plugin_api_v2::{Reply, Request};

#[test]
fn a_request_travels_to_the_server_and_its_reply_back() {
    let mut channel = unbounded();
    let ticket = channel.send_request(Request::ApiToken).unwrap();
    assert_eq!(channel.poll(&ticket), Poll::Waiting);
    let path = match channel.recv() {
        Received::Request(path, request) => {
            assert_eq!(request, Request::ApiToken);
            path
        }
        other => panic!("unexpected {:?}", other),
    };
    assert_eq!(channel.poll(&ticket), Poll::Waiting);
    assert!(channel.reply(path, Reply::ApiToken("token".to_string())));
    assert_eq!(channel.poll(&ticket), Poll::Ready(Reply::ApiToken("token".to_string())));
}

#[test]
fn a_reply_is_read_once() {
    let mut channel = unbounded();
    let ticket = channel.send_request(Request::ConfigPath).unwrap();
    let path = match channel.recv() {
        Received::Request(path, _) => path,
        other => panic!("unexpected {:?}", other),
    };
    assert!(channel.reply(path, Reply::ConfigPath("/etc".to_string())));
    assert_eq!(channel.poll(&ticket), Poll::Ready(Reply::ConfigPath("/etc".to_string())));
    assert_eq!(channel.poll(&ticket), Poll::Closed);
}

#[test]
fn requests_are_served_in_the_order_sent() {
    let mut channel = unbounded();
    channel.send_request(Request::ApiToken).unwrap();
    channel.send_request(Request::GetChannelName("C1".to_string())).unwrap();
    channel.send_request(Request::ConfigPath).unwrap();
    let mut seen = Vec::new();
    loop {
        match channel.recv() {
            Received::Request(_, request) => seen.push(request),
            Received::Empty => break,
            Received::Closed => panic!("callers still exist"),
        }
    }
    assert_eq!(
        seen,
        vec![Request::ApiToken, Request::GetChannelName("C1".to_string()), Request::ConfigPath]
    );
}

#[test]
fn tickets_count_up_from_zero() {
    let mut channel = unbounded();
    assert_eq!(channel.issued(), 0);
    channel.send_request(Request::ApiToken).unwrap();
    channel.send_request(Request::ApiToken).unwrap();
    assert_eq!(channel.issued(), 2);
    channel.recv();
    assert_eq!(channel.issued(), 2);
}

#[test]
fn every_caller_gets_its_own_reply() {
    let mut channel = unbounded();
    let callers = 7usize;
    let mut tickets = Vec::new();
    for i in 0..callers {
        tickets.push(channel.send_request(Request::GetChannelName(format!("C{}", i))).unwrap());
    }
    let mut paths = Vec::new();
    for _ in 0..callers {
        match channel.recv() {
            Received::Request(path, Request::GetChannelName(id)) => paths.push((path, id)),
            other => panic!("unexpected {:?}", other),
        }
    }
    // The server answers in an order of its own.
    paths.reverse();
    paths.swap(1, 4);
    for (path, id) in paths {
        assert!(channel.reply(path, Reply::ChannelName(format!("name-of-{}", id))));
    }
    // The callers look for their replies in yet another order.
    for i in [3usize, 0, 6, 1, 5, 2, 4] {
        assert_eq!(
            channel.poll(&tickets[i]),
            Poll::Ready(Reply::ChannelName(format!("name-of-C{}", i)))
        );
    }
    for ticket in &tickets {
        assert_eq!(channel.poll(ticket), Poll::Closed);
    }
}

#[test]
fn callers_and_server_may_take_turns() {
    let mut channel = unbounded();
    let first = channel.send_request(Request::ApiToken).unwrap();
    let first_path = match channel.recv() {
        Received::Request(path, _) => path,
        other => panic!("unexpected {:?}", other),
    };
    let second = channel.send_request(Request::AdminApiToken).unwrap();
    assert_eq!(channel.poll(&second), Poll::Waiting);
    let second_path = match channel.recv() {
        Received::Request(path, _) => path,
        other => panic!("unexpected {:?}", other),
    };
    assert!(channel.reply(second_path, Reply::AdminApiToken("admin".to_string())));
    assert_eq!(channel.poll(&first), Poll::Waiting);
    assert_eq!(channel.poll(&second), Poll::Ready(Reply::AdminApiToken("admin".to_string())));
    assert!(channel.reply(first_path, Reply::ApiToken("bot".to_string())));
    assert_eq!(channel.poll(&first), Poll::Ready(Reply::ApiToken("bot".to_string())));
}

#[test]
fn send_request_after_consumer_teardown_is_channel_closed() {
    let mut channel = unbounded();
    channel.close_receiver();
    assert_eq!(channel.send_request(Request::ApiToken), Err(ChannelClosed));
    assert_eq!(channel.issued(), 0);
}

#[test]
fn a_waiting_caller_learns_of_the_teardown() {
    let mut channel = unbounded();
    let queued = channel.send_request(Request::ApiToken).unwrap();
    let taken = channel.send_request(Request::ConfigPath).unwrap();
    let _path = match channel.recv() {
        Received::Request(path, _) => path,
        other => panic!("unexpected {:?}", other),
    };
    channel.close_receiver();
    assert_eq!(channel.poll(&taken), Poll::Closed);
    assert_eq!(channel.poll(&queued), Poll::Closed);
}

#[test]
fn a_written_reply_outlives_the_server() {
    let mut channel = unbounded();
    let ticket = channel.send_request(Request::ApiToken).unwrap();
    let path = match channel.recv() {
        Received::Request(path, _) => path,
        other => panic!("unexpected {:?}", other),
    };
    assert!(channel.reply(path, Reply::NotConfigured));
    channel.close_receiver();
    assert_eq!(channel.poll(&ticket), Poll::Ready(Reply::NotConfigured));
}

#[test]
fn the_server_stops_when_the_callers_are_gone() {
    let mut channel = unbounded();
    assert_eq!(channel.recv(), Received::Empty);
    channel.send_request(Request::ApiToken).unwrap();
    channel.close_senders();
    assert!(matches!(channel.recv(), Received::Request(_, Request::ApiToken)));
    assert_eq!(channel.recv(), Received::Closed);
    assert_eq!(channel.recv(), Received::Closed);
}

#[test]
fn nothing_is_sent_once_the_callers_are_gone() {
    let mut channel = unbounded();
    channel.close_senders();
    assert_eq!(channel.send_request(Request::ApiToken), Err(ChannelClosed));
}

#[test]
fn a_reply_path_of_another_channel_writes_nothing() {
    let mut one = unbounded();
    let mut other = unbounded();
    one.send_request(Request::ApiToken).unwrap();
    let ticket = other.send_request(Request::ApiToken).unwrap();
    let foreign = match one.recv() {
        Received::Request(path, _) => path,
        unexpected => panic!("unexpected {:?}", unexpected),
    };
    // `other` has a request with the same number, but it is still queued.
    assert!(!other.reply(foreign, Reply::NotConfigured));
    assert_eq!(other.poll(&ticket), Poll::Waiting);
}

#[test]
fn a_ticket_of_another_channel_finds_nothing() {
    let mut one = unbounded();
    let mut other = unbounded();
    let ticket = one.send_request(Request::ApiToken).unwrap();
    assert_eq!(other.poll(&ticket), Poll::Closed);
}

#[test]
fn a_torn_down_channel_refuses_every_later_request() {
    let mut channel = unbounded();
    let early = channel.send_request(Request::ConfigPath).unwrap();
    channel.close_receiver();
    for _ in 0..5 {
        assert_eq!(channel.send_request(Request::ApiToken), Err(ChannelClosed));
    }
    assert_eq!(channel.issued(), 1);
    assert_eq!(channel.poll(&early), Poll::Closed);
    // The refused requests left no trace: only the early one is queued.
    assert!(matches!(channel.recv(), Received::Request(_, Request::ConfigPath)));
    assert_eq!(channel.recv(), Received::Empty);
}
