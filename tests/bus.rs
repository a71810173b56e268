use hyperdeck::{Command, CommandQueue, RenderState, Renderer, Scene};

fn message(text: &str) -> heapless::String<64> {
    let mut m: heapless::String<64> = heapless::String::new();
    m.push_str(text).unwrap();
    m
}

#[test]
fn full_queue_drops_splash() {
    let mut q = CommandQueue::new();
    for _ in 0..16 {
        assert!(q.send_command(Command::Clear));
    }
    assert!(!q.send_command(Command::Splash));
    for _ in 0..16 {
        assert!(matches!(q.dequeue(), Some(Command::Clear)));
    }
    assert!(q.dequeue().is_none());
}

#[test]
fn seventeenth_command_dropped_fifo_kept() {
    let mut q = CommandQueue::new();
    for i in 0..16 {
        assert!(q.send_panic(message(&format!("m{}", i))));
    }
    assert!(!q.send_panic(message("extra")));
    for i in 0..16 {
        match q.dequeue() {
            Some(Command::Panic { message }) => assert_eq!(message.as_str(), format!("m{}", i)),
            _ => panic!("expected a panic command"),
        }
    }
    assert!(q.dequeue().is_none());
}

#[test]
fn dequeue_empty_is_none() {
    let mut q = CommandQueue::new();
    assert!(q.dequeue().is_none());
    assert!(q.send_command(Command::Splash));
    assert!(matches!(q.dequeue(), Some(Command::Splash)));
    assert!(q.dequeue().is_none());
}

#[test]
fn room_after_dequeue() {
    let mut q = CommandQueue::new();
    for _ in 0..16 {
        q.send_command(Command::Clear);
    }
    assert!(q.dequeue().is_some());
    assert!(q.send_command(Command::Splash));
    for _ in 0..15 {
        assert!(matches!(q.dequeue(), Some(Command::Clear)));
    }
    assert!(matches!(q.dequeue(), Some(Command::Splash)));
}

#[test]
fn renderer_idle_on_empty_queue() {
    let mut q = CommandQueue::new();
    let mut r = Renderer::new();
    assert!(matches!(r.poll(&mut q), Ok(false)));
    assert!(r.scene().is_none());
}

#[test]
fn renderer_draws_then_returns_to_idle() {
    let mut q = CommandQueue::new();
    q.send_panic(message("bus fault"));
    q.send_command(Command::Clear);
    let mut r = Renderer::new();
    assert!(matches!(r.poll(&mut q), Ok(true)));
    match r.scene() {
        Some(Scene::Panic { message }) => assert_eq!(message.as_str(), "bus fault"),
        _ => panic!("expected the panic scene"),
    }
    r.finish();
    assert!(r.scene().is_none());
    assert!(matches!(r.poll(&mut q), Ok(true)));
    assert!(matches!(r.scene(), Some(Scene::Clear)));
    r.finish();
    assert!(matches!(r.poll(&mut q), Ok(false)));
}

#[test]
fn renderer_rejects_reserved_commands() {
    let mut q = CommandQueue::new();
    q.send_command(Command::Selector {});
    q.send_command(Command::Settings {});
    q.send_command(Command::Splash);
    let mut r = Renderer::new();
    assert!(matches!(r.poll(&mut q), Err(Command::Selector {})));
    assert!(r.scene().is_none());
    assert!(matches!(r.poll(&mut q), Err(Command::Settings {})));
    assert!(matches!(r.poll(&mut q), Ok(true)));
    assert!(matches!(r.scene(), Some(Scene::Splash)));
}

#[test]
fn render_state_starts_idle() {
    let r = Renderer::new();
    assert!(r.scene().is_none());
    let _idle = RenderState::Idle;
}
