use netservice::codec::Codec;
use netservice::config::{ServerConfig, Transport};
use netservice::handler::Handler;

#[test]
fn server_config_keeps_its_settings() {
    let c = ServerConfig::new(
        String::from("0.0.0.0:8888"),
        Transport::Datagram,
        Codec::DelimitedJson,
        Handler::Vector3Norm,
        true,
    );
    assert_eq!(c.address(), "0.0.0.0:8888");
    assert_eq!(c.transport(), Transport::Datagram);
    assert_eq!(c.codec(), Codec::DelimitedJson);
    assert_eq!(c.handler(), Handler::Vector3Norm);
    assert!(c.slow());
}
