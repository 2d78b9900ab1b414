use shell_gateway::command::extract_command;
use shell_gateway::error::{ConnectError, SSHError};
use shell_gateway::keys::{generate_cache_key, generate_pool_key};
use shell_gateway::endpoint::EndpointKey;
use shell_gateway::models::{align_to_cache_line, likely, unlikely, AIProcessor, AIResponse, Attempt, BufferSize, CacheStats};
use shell_gateway::settings::{AIProviderConfig, BenchmarkConfig};

#[test]
fn command_from_bash_block() {
    let r = "Try this:\n```bash\n  ls -la /var/log \n```\nthen look.";
    assert_eq!(extract_command(r), Some("ls -la /var/log".to_string()));
}

#[test]
fn command_from_sh_block() {
    let r = "```sh\ndf -h\n```";
    assert_eq!(extract_command(r), Some("df -h".to_string()));
}

#[test]
fn bash_block_wins_over_sh_block() {
    let r = "```sh\nuptime\n```\n```bash\nwhoami\n```";
    assert_eq!(extract_command(r), Some("whoami".to_string()));
}

#[test]
fn untagged_block_needs_a_known_command_word() {
    assert_eq!(extract_command("```\nsudo systemctl restart nginx\n```"), Some("sudo systemctl restart nginx".to_string()));
    assert_eq!(extract_command("```\ndocker ps\n```"), Some("docker ps".to_string()));
    assert_eq!(extract_command("```\nls -la\n```"), None);
    assert_eq!(extract_command("```\napt update\napt upgrade\n```"), None);
}

#[test]
fn no_block_or_unclosed_block_gives_nothing() {
    assert_eq!(extract_command("just prose"), None);
    assert_eq!(extract_command(""), None);
    assert_eq!(extract_command("```bash\nls"), None);
}

#[test]
fn non_ascii_text_around_block() {
    let r = "试试这个：```bash\nécho café\n```";
    assert_eq!(extract_command(r), Some("écho café".to_string()));
}

#[test]
fn ai_response_carries_extracted_command() {
    let r = AIResponse::from_reply("Run ```bash\nfree -m\n```".to_string(), Some("m".to_string()), Some(12), false);
    assert_eq!(r.command, Some("free -m".to_string()));
    assert_eq!(r.tokens_used, Some(12));
    assert!(!r.cached);
}

#[test]
fn pool_key_format() {
    assert_eq!(generate_pool_key("example.com", 22, "root"), "root@example.com:22");
    assert_eq!(generate_pool_key("h", 0, "u"), "u@h:0");
    assert_eq!(generate_pool_key("h", 65535, ""), "@h:65535");
    let k = EndpointKey::new("db".to_string(), 2222, "ops".to_string());
    assert_eq!(k.pool_key(), "ops@db:2222");
}

#[test]
fn cache_key_joins_with_colon() {
    assert_eq!(generate_cache_key(&["session", "ls -la"]), "session:ls -la");
    assert_eq!(generate_cache_key(&["one"]), "one");
    assert_eq!(generate_cache_key(&[]), "");
    assert_eq!(generate_cache_key(&["a", "", "c"]), "a::c");
}

#[test]
fn endpoint_key_equality() {
    let a = EndpointKey::new("h".to_string(), 22, "u".to_string());
    let b = a.duplicate();
    assert!(a.same_endpoint(&b));
    let c = EndpointKey::new("h".to_string(), 23, "u".to_string());
    assert!(!a.same_endpoint(&c));
}

#[test]
fn ssh_errors_map_to_phases() {
    assert_eq!(SSHError::NetworkTimeout { host: "h".to_string(), port: 22 }.phase(), ConnectError::Network);
    assert_eq!(SSHError::HandshakeFailed.phase(), ConnectError::Handshake);
    assert_eq!(SSHError::AuthenticationFailed.phase(), ConnectError::Auth);
    assert_eq!(SSHError::ChannelCreationFailed.phase(), ConnectError::ChannelSetup);
    assert!(ConnectError::Network.is_retryable());
    assert!(!ConnectError::Auth.is_retryable());
}

#[test]
fn cache_line_alignment() {
    assert_eq!(align_to_cache_line(0), 0);
    assert_eq!(align_to_cache_line(1), 64);
    assert_eq!(align_to_cache_line(64), 64);
    assert_eq!(align_to_cache_line(65), 128);
}

#[test]
fn buffer_size_classes() {
    assert_eq!(BufferSize::classify(4096), BufferSize::Small);
    assert_eq!(BufferSize::classify(4097), BufferSize::Medium);
    assert_eq!(BufferSize::classify(65536), BufferSize::Medium);
    assert_eq!(BufferSize::classify(65537), BufferSize::Large);
}

#[test]
fn branch_hints_pass_values_through() {
    assert!(likely(true));
    assert!(!unlikely(false));
}

#[test]
fn provider_fallback_order() {
    let p = AIProviderConfig {
        name: "primary".to_string(),
        api_key: "k".to_string(),
        endpoint: "e".to_string(),
        model: "m".to_string(),
        max_tokens: 100,
        timeout: 30,
    };
    let proc_ = AIProcessor::new(vec![p.clone(), p]);
    assert_eq!(proc_.next_attempt(0), Attempt::Try(0));
    assert_eq!(proc_.next_attempt(1), Attempt::Try(1));
    assert_eq!(proc_.next_attempt(2), Attempt::AllFailed);
}

#[test]
fn stats_and_defaults() {
    let s = CacheStats::new(10, 60);
    assert_eq!(s.capacity, 10);
    assert_eq!(s.total_entries, 0);
    let b = BenchmarkConfig::default();
    assert_eq!(b.duration, 60_000);
    assert_eq!(b.concurrent_connections, 100);
}
