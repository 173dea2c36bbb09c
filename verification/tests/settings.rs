use rs_pedalboard::processor_settings::SupportedHost;
use rs_pedalboard::server_settings::SupportedHost as ServerHost;
use rs_pedalboard::settings;

#[test]
fn a_host_is_named_in_any_case() {
    assert_eq!(SupportedHost::from_name("JACK"), Ok(SupportedHost::JACK));
    assert_eq!(SupportedHost::from_name("jack"), Ok(SupportedHost::JACK));
    assert_eq!(SupportedHost::from_name("Jack"), Ok(SupportedHost::JACK));
    assert_eq!(
        SupportedHost::from_name("WASAPI"),
        Err("Unsupported host: WASAPI".to_string())
    );
    assert_eq!(
        SupportedHost::from_name(""),
        Err("Unsupported host: ".to_string())
    );
    assert_eq!("jAcK".parse::<SupportedHost>(), Ok(SupportedHost::JACK));
    assert_eq!(SupportedHost::JACK.name(), "JACK");
    assert_eq!(SupportedHost::default(), SupportedHost::JACK);
    assert_eq!(SupportedHost::default_host(), SupportedHost::JACK);
}

#[test]
fn the_server_reads_host_names_the_same_way() {
    assert_eq!(ServerHost::from_name("JaCk"), Ok(ServerHost::JACK));
    assert_eq!(
        ServerHost::from_name("asio"),
        Err("Unsupported host: asio".to_string())
    );
    assert_eq!(ServerHost::JACK.name(), "JACK");
    assert_eq!(ServerHost::default(), ServerHost::JACK);
}

#[test]
fn a_name_is_lowercased_before_it_is_matched() {
    // The lowercased name decides, the original is quoted in the error
    assert_eq!(
        SupportedHost::from_lowercase_name("jack", "JACK"),
        Ok(SupportedHost::JACK)
    );
    assert_eq!(
        SupportedHost::from_lowercase_name("JACK", "JACK"),
        Err("Unsupported host: JACK".to_string())
    );
    assert_eq!(SupportedHost::from_name("ÄJACK"), Err("Unsupported host: ÄJACK".to_string()));
    assert_eq!(settings::unsupported_host("x"), "Unsupported host: x");
}

#[test]
fn a_buffer_size_setting_is_a_power_of_two() {
    assert_eq!(settings::buffer_size_samples(0), 1);
    assert_eq!(settings::buffer_size_samples(8), 256);
    assert_eq!(settings::buffer_size_samples(10), 1024);
}
