use site_discovery::apache::{
    get_apache_discovery_config, get_apache_redirect_to_http_regex, get_apache_vhost_port_regex,
    get_domain_search_regex_for_apache_vhost,
};
use site_discovery::domain::VirtualHost;
use site_discovery::nginx::{
    get_domain_search_regex_for_nginx_vhost, get_nginx_discovery_config,
    get_nginx_redirect_with_301_regex, get_nginx_vhost_port_regex,
    get_nginx_vhost_section_start_regex,
};
use site_discovery::pattern::{is_match, is_valid_pattern, PatternError};
use site_discovery::directory::{
    entry_is_vhost_file, get_vhost_file_from_dir, name_has_extension, DirEntry, EntryKind, PathScan,
};
use site_discovery::webserver::{
    get_vhost_config_file_list, get_vhosts, get_virtual_hosts_from_file, DiscoveryError,
};
use site_discovery::{DEFAULT_HTTPS_PORT, DEFAULT_HTTP_PORT};

const NGINX_LISTEN: &str = "\
server {
    listen 192.168.10.15:2345;
    server_name qweqwe.ru;

    root /var/www/qweqwe;
}

server {
    listen 10.0.0.1:443 ssl;
    server_name www.megatron2000.ru;

    root /var/www/megatron;
}
";

const NGINX_SSL_AND_HTTP2: &str = "\
server {
    listen 443 ssl http2;
    server_name zabbix.com;
}

server {
    listen 10555 ssl;
    server_name zabbix.com;
}

server {
    listen 2928 http2;
    server_name zabbix.com;
}

server {
    listen 32318;
    server_name zabbix.com;
}
";

const NGINX_RETURN_301: &str = "\
server {
    listen 80;
    server_name www.dhl.de;
    return 301 https://dhl.de$request_uri;
}

server {
    listen 80;
    server_name dhl.de;

    location / {
        root /var/www/dhl;
    }
}
";

const NGINX_COMMENTS: &str = "\
#server {
#    listen 8080;
#    server_name commented.ru;
#}

server {
    # listen 8081;
    listen 80;
    #server_name hidden.ru;
    # server_name also-hidden.ru;
    server_name whatever.ru;
}
";

const NGINX_WITHOUT_SERVER_NAME: &str = "\
server {
    listen 80;

    location / {
        root /var/www/html;
    }
}
";

const NGINX_VHOST2: &str = "\
server {
    listen 443 ssl;
    server_name goodhost.ru;

    location / {
        return 301 https://goodhost.ru/app;
    }
}
";

const NGINX_MULTI_FIRST: &str = "\
server {
    listen 12398;
    server_name beta.tesla.com;
}

server {
    listen 80;
    server_name rust-lang.org www.rust-lang.org;
}
";

const NGINX_MULTI_SECOND: &str = "\
server {
    listen 80;
    server_name whatever.ru;
}

server {
    listen 443 ssl;
    server_name tesla.com;
}
";

const NGINX_MULTI_NESTED: &str = "\
server {
    listen 8443 ssl;
    server_name nested.tesla.com;
}
";

const APACHE_VHOST1: &str = "\
<VirtualHost *:8081>
    ServerAdmin admin@museum.ru
    ServerName collections.museum.ru
    DocumentRoot /var/www/collections
</VirtualHost>
";

const APACHE_VHOST2: &str = "\
<VirtualHost *:443>
    ServerName whatever.ru
    DocumentRoot /var/www/whatever
</VirtualHost>

<VirtualHost 10.0.0.5:5380>
    DocumentRoot /var/www/whatever-admin
    ServerName whatever.ru
</VirtualHost>

#<VirtualHost *:9999>
#    ServerName disabled.company.ru
#</VirtualHost>

<VirtualHost *:80>
    ServerName old.company.ru
    Redirect / https://demo.company.ru/
</VirtualHost>

<VirtualHost *:1480>
    ServerName demo.company.ru
</VirtualHost>
";

fn lines_of(text: &str) -> Vec<String> {
    text.lines().map(|line| line.to_string()).collect()
}

fn file(dir: &str, name: &str, text: &str) -> DirEntry {
    DirEntry {
        path: format!("{}/{}", dir, name),
        name: Some(name.to_string()),
        kind: EntryKind::File,
        entries: None,
        lines: Some(lines_of(text)),
    }
}

fn directory(dir: &str, name: &str, entries: Option<Vec<DirEntry>>) -> DirEntry {
    DirEntry {
        path: format!("{}/{}", dir, name),
        name: Some(name.to_string()),
        kind: EntryKind::Directory,
        entries,
        lines: None,
    }
}

fn nginx_multi_files() -> PathScan {
    PathScan::Directory(vec![
        file("tests/nginx-multi-files", "vhost1.conf", NGINX_MULTI_FIRST),
        directory(
            "tests/nginx-multi-files",
            "subdir",
            Some(vec![file("tests/nginx-multi-files/subdir", "nested.conf", NGINX_MULTI_NESTED)]),
        ),
        file("tests/nginx-multi-files", "vhost2.conf", NGINX_MULTI_SECOND),
        file("tests/nginx-multi-files", "README.md", "server {\nlisten 81;\nserver_name readme.ru;\n}\n"),
    ])
}

fn apache_vhosts() -> PathScan {
    PathScan::Directory(vec![
        file("tests/apache-vhosts", "vhost1.conf", APACHE_VHOST1),
        file("tests/apache-vhosts", "vhost2.conf", APACHE_VHOST2),
        file("tests/apache-vhosts", "notes.txt", "nothing"),
    ])
}

fn nginx_hosts(text: &str) -> Result<Vec<VirtualHost>, PatternError> {
    get_virtual_hosts_from_file(
        &lines_of(text),
        &get_nginx_vhost_section_start_regex(),
        &get_nginx_redirect_with_301_regex(),
        &get_nginx_vhost_port_regex(),
        &get_domain_search_regex_for_nginx_vhost(),
    )
}

fn apache_hosts(text: &str) -> Result<Vec<VirtualHost>, PatternError> {
    get_virtual_hosts_from_file(
        &lines_of(text),
        &get_apache_vhost_port_regex(),
        &get_apache_redirect_to_http_regex(),
        &get_apache_vhost_port_regex(),
        &get_domain_search_regex_for_apache_vhost(),
    )
}

fn pairs(hosts: &Vec<VirtualHost>) -> Vec<(String, i32)> {
    hosts.iter().map(|host| (host.domain.clone(), host.port)).collect()
}

fn pair(domain: &str, port: i32) -> (String, i32) {
    (domain.to_string(), port)
}

fn assert_vhost_in_vec(vhosts: &Vec<VirtualHost>, domain: &str, port: i32) {
    let vhost_found = vhosts.iter().find(|vhost| vhost.domain == domain && vhost.port == port);
    println!("expect domain: '{domain}'");
    println!("expect port: {port}");
    assert!(vhost_found.is_some());
}

fn support_ip_and_port() {
    match nginx_hosts(NGINX_LISTEN) {
        Ok(vhosts) => {
            println!("{:?}", vhosts);
            assert_eq!(vhosts.len(), 2);

            let expected_domain1 = "qweqwe.ru";

            let expected_vhost1 = VirtualHost {
                domain: expected_domain1.to_string(),
                port: 2345
            };

            assert_eq!(expected_vhost1.to_string(), vhosts.first().unwrap().to_string());

            let expected_domain2 = "www.megatron2000.ru";

            let expected_vhost2 = VirtualHost {
                domain: expected_domain2.to_string(),
                port: 443
            };

            assert_eq!(expected_vhost2.to_string(), vhosts.last().unwrap().to_string());
        },
        Err(_) => panic!("vhosts vec was expected")
    }
}

fn support_ssl_and_http2() {
    match nginx_hosts(NGINX_SSL_AND_HTTP2) {
        Ok(vhosts) => {
            println!("{:?}", vhosts);
            assert_eq!(vhosts.len(), 4);

            let expected_domain = "zabbix.com";

            let expected_vhost1 = VirtualHost {
                domain: expected_domain.to_string(),
                port: 443
            };

            assert_eq!(expected_vhost1.to_string(), vhosts.first().unwrap().to_string());

            let expected_vhost2 = VirtualHost {
                domain: expected_domain.to_string(),
                port: 10555
            };

            assert_eq!(expected_vhost2.to_string(), vhosts.get(1).unwrap().to_string());

            let expected_vhost3 = VirtualHost {
                domain: expected_domain.to_string(),
                port: 2928
            };

            assert_eq!(expected_vhost3.to_string(), vhosts.get(2).unwrap().to_string());

            let expected_vhost4 = VirtualHost {
                domain: expected_domain.to_string(),
                port: 32318
            };

            assert_eq!(expected_vhost4.to_string(), vhosts.get(3).unwrap().to_string());
        },
        Err(_) => panic!("vhosts vec was expected")
    }
}

fn skip_vhosts_with_return_301() {
    match nginx_hosts(NGINX_RETURN_301) {
        Ok(vhosts) => {
            println!("{:?}", vhosts);
            assert_eq!(vhosts.len(), 1);

            let expected_vhost = VirtualHost {
                domain: "dhl.de".to_string(),
                port: 80
            };

            assert_eq!(expected_vhost.to_string(), vhosts.first().unwrap().to_string());
        },
        Err(_) => panic!("vhosts vec was expected")
    }
}

fn comments_should_be_respected() {
    match nginx_hosts(NGINX_COMMENTS) {
        Ok(vhosts) => {
            println!("{:?}", vhosts);
            assert_eq!(vhosts.len(), 1);

            let expected_vhost = VirtualHost {
                domain: "whatever.ru".to_string(),
                port: 80
            };

            assert_eq!(expected_vhost.to_string(), vhosts.first().unwrap().to_string());
        },
        Err(_) => panic!("vhosts vec was expected")
    }
}

fn ignore_vhost_server_without_server_name_property() {
    match nginx_hosts(NGINX_WITHOUT_SERVER_NAME) {
        Ok(vhosts) => {
            println!("{:?}", vhosts);
            assert!(vhosts.is_empty());
        },
        Err(_) => panic!("vhosts vec was expected")
    }
}

fn include_vhosts_with_redirect_inside_location() {
    let vhosts = nginx_hosts(NGINX_VHOST2).unwrap();

    let expected_domain = "goodhost.ru";

    let result = vhosts.iter().find(
        |vhost|vhost.domain == expected_domain
    ).unwrap();

    assert_eq!(result.domain, expected_domain);
    assert_eq!(result.port, 443);
}

fn get_vhost_config_file_list_should_return_file_names() {
    let vhost_root = apache_vhosts();
    let files = get_vhost_config_file_list(&vhost_root, &vec![".conf".to_string()], false).unwrap();

    let expected_size: usize = 2;
    assert_eq!(&files.len(), &expected_size);
}

fn get_vhost_config_file_list_should_return_error_for_unknown_path() {
    let unknown_path = PathScan::Missing;
    assert!(get_vhost_config_file_list(&unknown_path, &vec![".conf".to_string()], false).is_err());
}

#[test]
fn nginx_support_ip_and_port() {
    support_ip_and_port()
}

#[test]
fn nginx_tests_support_ip_and_port() {
    support_ip_and_port()
}

#[test]
fn nginx_support_ssl_and_http2() {
    support_ssl_and_http2()
}

#[test]
fn nginx_tests_support_ssl_and_http2() {
    support_ssl_and_http2()
}

#[test]
fn nginx_skip_vhosts_with_return_301() {
    skip_vhosts_with_return_301()
}

#[test]
fn nginx_tests_skip_vhosts_with_return_301() {
    skip_vhosts_with_return_301()
}

#[test]
fn nginx_comments_should_be_respected() {
    comments_should_be_respected()
}

#[test]
fn nginx_tests_comments_should_be_respected() {
    comments_should_be_respected()
}

#[test]
fn nginx_ignore_vhost_server_without_server_name_property() {
    ignore_vhost_server_without_server_name_property()
}

#[test]
fn nginx_tests_ignore_vhost_server_without_server_name_property() {
    ignore_vhost_server_without_server_name_property()
}

#[test]
fn nginx_tests_vhosts_should_be_extracted_from_multiply_files_from_path() {
    let nginx_vhost_path = nginx_multi_files();
    let config = get_nginx_discovery_config(false, &vec![".conf".to_string(), ".vhost".to_string()]);

    let vhosts = get_vhosts(&nginx_vhost_path, &config, false).unwrap();

    vhosts.iter().for_each(|vhost| println!("{}", vhost.to_string()));

    println!("{:?}", vhosts);

    let expected_len: usize = 4;
    assert_eq!(vhosts.len(), expected_len);

    assert_vhost_in_vec(&vhosts, "beta.tesla.com", 12398);
    assert_vhost_in_vec(&vhosts, "rust-lang.org", DEFAULT_HTTP_PORT);
    assert_vhost_in_vec(&vhosts, "whatever.ru", DEFAULT_HTTP_PORT);
    assert_vhost_in_vec(&vhosts, "tesla.com", DEFAULT_HTTPS_PORT);
}

#[test]
fn webserver_vhosts_should_be_extracted_from_multiply_files_from_path() {
    let nginx_vhost_path = nginx_multi_files();
    let config = get_nginx_discovery_config(
        false, &vec![".conf".to_string()]);

    let vhosts = get_vhosts(&nginx_vhost_path, &config, false).unwrap();

    vhosts.iter().for_each(|vhost| println!("{}", vhost.to_string()));

    println!("{:?}", vhosts);

    let expected_len: usize = 4;
    assert_eq!(vhosts.len(), expected_len);

    assert_vhost_in_vec(&vhosts, "beta.tesla.com", 12398);
    assert_vhost_in_vec(&vhosts, "rust-lang.org", DEFAULT_HTTP_PORT);
    assert_vhost_in_vec(&vhosts, "whatever.ru", DEFAULT_HTTP_PORT);
    assert_vhost_in_vec(&vhosts, "tesla.com", DEFAULT_HTTPS_PORT);
}

#[test]
fn return_error_for_invalid_path() {
    let config = get_nginx_discovery_config(true, &vec![".conf".to_string()]);
    let path = PathScan::Missing;
    assert!(get_vhosts(&path, &config, false).is_err())
}

#[test]
fn support_recursive_mode() {
    let vhost_root_path = nginx_multi_files();
    let files = get_vhost_config_file_list(&vhost_root_path, &vec![".conf".to_string()], true).unwrap();

    let expected_size: usize = 3;
    assert_eq!(&files.len(), &expected_size);
}

#[test]
fn webserver_get_vhost_config_file_list_should_return_file_names() {
    get_vhost_config_file_list_should_return_file_names()
}

#[test]
fn webserver_tests_get_vhost_config_file_list_should_return_file_names() {
    get_vhost_config_file_list_should_return_file_names()
}

#[test]
fn webserver_get_vhost_config_file_list_should_return_error_for_unknown_path() {
    get_vhost_config_file_list_should_return_error_for_unknown_path()
}

#[test]
fn webserver_tests_get_vhost_config_file_list_should_return_error_for_unknown_path() {
    get_vhost_config_file_list_should_return_error_for_unknown_path()
}

#[test]
fn webserver_include_vhosts_with_redirect_inside_location() {
    include_vhosts_with_redirect_inside_location()
}

#[test]
fn webserver_tests_include_vhosts_with_redirect_inside_location() {
    include_vhosts_with_redirect_inside_location()
}

#[test]
fn apache_get_virtual_hosts_from_apache_file() {
    let vhosts_path = apache_vhosts();

    let config = get_apache_discovery_config(false, &vec![".conf".to_string()]);

    let vhosts = get_vhosts(&vhosts_path, &config, false).unwrap();

    for vhost in &vhosts {
        println!("{}", vhost.to_string());
    }

    let expected_size: usize = 4;
    assert_eq!(&vhosts.len(), &expected_size);

    assert_vhost_in_vec(&vhosts, "collections.museum.ru", 8081);
    assert_vhost_in_vec(&vhosts, "whatever.ru", 443);
    assert_vhost_in_vec(&vhosts, "whatever.ru", 5380);
    assert_vhost_in_vec(&vhosts, "demo.company.ru", 1480);
}

#[test]
fn apache_tests_get_virtual_hosts_from_apache_file() {
    let vhosts = apache_hosts(APACHE_VHOST2).unwrap();

    for vhost in &vhosts {
        println!("{}", vhost.to_string());
    }

    let expected_size: usize = 3;
    assert_eq!(&vhosts.len(), &expected_size);

    let first_vhost = &vhosts.first().unwrap();

    assert_eq!(first_vhost.port, 443);
    assert_eq!(first_vhost.domain, "whatever.ru");

    let second_vhost = &vhosts.get(1).unwrap();

    assert_eq!(second_vhost.port, 5380);
    assert_eq!(second_vhost.domain, "whatever.ru");

    let last_vhost = &vhosts.last().unwrap();

    assert_eq!(last_vhost.port, 1480);
    assert_eq!(last_vhost.domain, "demo.company.ru");
}

#[test]
fn get_domain_search_regex_for_apache_vhost_should_match_valid_servername_values() {
    let regex = get_domain_search_regex_for_apache_vhost();

    assert!(is_match(&regex, "    ServerName distrib.company.ru").unwrap());
    assert!(is_match(&regex, "ServerName   vp123.Cgro2Mp-aNy.ru").unwrap());
    assert_eq!(is_match(&regex, "ServerName 1 cp.coM2mu-any.ru   ").unwrap(), false);
}

#[test]
fn the_patterns_of_both_dialects_are_regular_expressions() {
    assert!(is_valid_pattern(&get_nginx_vhost_section_start_regex()));
    assert!(is_valid_pattern(&get_nginx_redirect_with_301_regex()));
    assert!(is_valid_pattern(&get_nginx_vhost_port_regex()));
    assert!(is_valid_pattern(&get_domain_search_regex_for_nginx_vhost()));
    assert!(is_valid_pattern(&get_apache_vhost_port_regex()));
    assert!(is_valid_pattern(&get_apache_redirect_to_http_regex()));
    assert!(is_valid_pattern(&get_domain_search_regex_for_apache_vhost()));
    assert!(!is_valid_pattern("server ("));
    assert!(is_valid_pattern(""));
}

#[test]
fn matching_searches_the_text_and_tells_a_bad_pattern() {
    assert_eq!(is_match("b+", "aabba"), Ok(true));
    assert_eq!(is_match("^b+", "aabba"), Ok(false));
    assert_eq!(is_match("a", ""), Ok(false));
    assert_eq!(is_match("(", "("), Err(PatternError::Invalid));
}

#[test]
fn the_configs_hold_the_patterns_of_their_dialect() {
    let extensions = vec![".conf".to_string(), ".vhost".to_string()];
    let nginx = get_nginx_discovery_config(true, &extensions);
    assert_eq!(nginx.section_start, get_nginx_vhost_section_start_regex());
    assert_eq!(nginx.redirect_to_url, get_nginx_redirect_with_301_regex());
    assert_eq!(nginx.port, get_nginx_vhost_port_regex());
    assert_eq!(nginx.domain, get_domain_search_regex_for_nginx_vhost());
    assert!(nginx.include_subdirs);
    assert_eq!(nginx.file_extensions, extensions);
    let apache = get_apache_discovery_config(false, &extensions);
    assert_eq!(apache.section_start, get_apache_vhost_port_regex());
    assert_eq!(apache.redirect_to_url, get_apache_redirect_to_http_regex());
    assert_eq!(apache.port, get_apache_vhost_port_regex());
    assert_eq!(apache.domain, get_domain_search_regex_for_apache_vhost());
    assert!(!apache.include_subdirs);
    assert_eq!(apache.file_extensions, extensions);
    assert_eq!(get_nginx_vhost_section_start_regex(), "(?:^|^[^#]+)server[\\s\t]+\\{");
    assert_eq!(
        get_apache_vhost_port_regex(),
        "(?:^|^[^#]+)<VirtualHost[\\s\t]+.*:(?P<port>\\d+)>"
    );
}

#[test]
fn a_scoped_redirect_keeps_the_host() {
    let hosts = nginx_hosts(
        "server {\n    listen 443;\n    server_name whatever.ru;\n    location / {\n    return 301 https://whatever.ru/new;\n    }\n}\n",
    )
    .unwrap();
    assert_eq!(pairs(&hosts), vec![pair("whatever.ru", 443)]);
}

#[test]
fn a_redirect_of_the_whole_block_drops_the_host() {
    let hosts = nginx_hosts(
        "server {\n    listen 443;\n    server_name whatever.ru;\n    return 301 https://whatever.ru/new;\n}\n",
    )
    .unwrap();
    assert!(hosts.is_empty());
}

#[test]
fn after_a_redirect_the_block_is_not_read_on() {
    let hosts = nginx_hosts(
        "server {\n    return 301 https://b.ru;\n    listen 443;\n    server_name a.ru;\n}\nserver {\n    listen 80;\n    server_name b.ru;\n}\n",
    )
    .unwrap();
    assert_eq!(pairs(&hosts), vec![pair("b.ru", 80)]);
}

#[test]
fn a_redirect_on_the_first_line_has_no_line_before_it() {
    let hosts = get_virtual_hosts_from_file(
        &lines_of("return 301 http://a.ru;\nlisten 80;\nserver_name a.ru;\n"),
        "^return",
        &get_nginx_redirect_with_301_regex(),
        &get_nginx_vhost_port_regex(),
        &get_domain_search_regex_for_nginx_vhost(),
    )
    .unwrap();
    assert!(hosts.is_empty());
}

#[test]
fn a_commented_server_name_gives_no_domain() {
    let regex = get_domain_search_regex_for_apache_vhost();
    assert_eq!(is_match(&regex, "#ServerName foo.com"), Ok(false));
    assert_eq!(is_match(&regex, "  # ServerName foo.com"), Ok(false));
    assert_eq!(is_match(&regex, "ServerName foo.com"), Ok(true));
    let hosts = apache_hosts("<VirtualHost *:80>\n#ServerName foo.com\n</VirtualHost>\n").unwrap();
    assert!(hosts.is_empty());
    let hosts =
        apache_hosts("<VirtualHost *:80>\n#ServerName foo.com\nServerName bar.com\n").unwrap();
    assert_eq!(pairs(&hosts), vec![pair("bar.com", 80)]);
}

#[test]
fn the_first_alias_is_the_domain() {
    let hosts =
        nginx_hosts("server {\n listen 80;\n server_name a.example.com b.example.com;\n}\n").unwrap();
    assert_eq!(pairs(&hosts), vec![pair("a.example.com", 80)]);
}

#[test]
fn the_first_port_and_the_first_domain_of_a_block_stay() {
    let hosts = nginx_hosts(
        "server {\n listen 8080;\n listen 443 ssl;\n server_name first.ru;\n server_name second.ru;\n}\n",
    )
    .unwrap();
    assert_eq!(pairs(&hosts), vec![pair("first.ru", 8080)]);
}

#[test]
fn a_block_without_port_or_without_domain_gives_nothing() {
    let hosts = nginx_hosts(
        "server {\n server_name only-domain.ru;\n}\nserver {\n listen 81;\n}\nserver {\n listen 82;\n server_name both.ru;\n}\n",
    )
    .unwrap();
    assert_eq!(pairs(&hosts), vec![pair("both.ru", 82)]);
}

#[test]
fn what_stands_before_the_first_block_is_not_read() {
    let hosts = nginx_hosts("listen 80;\nserver_name early.ru;\n").unwrap();
    assert!(hosts.is_empty());
    let hosts = nginx_hosts("").unwrap();
    assert!(hosts.is_empty());
    let hosts = get_virtual_hosts_from_file(
        &Vec::new(),
        &get_nginx_vhost_section_start_regex(),
        &get_nginx_redirect_with_301_regex(),
        &get_nginx_vhost_port_regex(),
        &get_domain_search_regex_for_nginx_vhost(),
    )
    .unwrap();
    assert!(hosts.is_empty());
}

#[test]
fn a_port_that_is_no_port_leaves_the_port_open() {
    let hosts = nginx_hosts(
        "server {\n listen 0;\n listen 70000;\n listen 99999999999999999999;\n listen 00443;\n server_name a.ru;\n}\n",
    )
    .unwrap();
    assert_eq!(pairs(&hosts), vec![pair("a.ru", 443)]);
    let hosts = nginx_hosts("server {\n listen 65536;\n server_name a.ru;\n}\n").unwrap();
    assert!(hosts.is_empty());
    let hosts = nginx_hosts("server {\n listen 65535;\n server_name a.ru;\n}\n").unwrap();
    assert_eq!(pairs(&hosts), vec![pair("a.ru", 65535)]);
    let hosts = nginx_hosts("server {\n listen 1;\n server_name a.ru;\n}\n").unwrap();
    assert_eq!(pairs(&hosts), vec![pair("a.ru", 1)]);
    let hosts = nginx_hosts("server {\n listen \u{663};\n server_name a.ru;\n}\n").unwrap();
    assert!(hosts.is_empty());
}

#[test]
fn the_port_is_read_from_the_group_named_port() {
    let hosts = nginx_hosts("server {\n listen 127.0.0.1:8080;\n server_name a.ru;\n}\n").unwrap();
    assert_eq!(pairs(&hosts), vec![pair("a.ru", 8080)]);
    let hosts = get_virtual_hosts_from_file(
        &lines_of("begin\nport 10 20 30\nname a.ru\n"),
        "^begin",
        "^never$",
        r"(?P<port>\d+)",
        r"^name (\S+)",
    )
    .unwrap();
    assert_eq!(pairs(&hosts), vec![pair("a.ru", 30)]);
    let hosts = get_virtual_hosts_from_file(
        &lines_of("begin\nport 10\nname a.ru\n"),
        "^begin",
        "^never$",
        r"port (\d+)",
        r"^name (\S+)",
    )
    .unwrap();
    assert!(hosts.is_empty());
    let hosts = get_virtual_hosts_from_file(
        &lines_of("begin\nport +10\nname a.ru\n"),
        "^begin",
        "^never$",
        r"port (?P<port>\S+)",
        r"^name (\S+)",
    )
    .unwrap();
    assert_eq!(pairs(&hosts), vec![pair("a.ru", 10)]);
}

#[test]
fn the_domain_is_read_from_the_first_group_of_the_first_match() {
    let hosts = get_virtual_hosts_from_file(
        &lines_of("begin\nport 10\nname a.ru name b.ru\n"),
        "^begin",
        "^never$",
        r"port (?P<port>\d+)",
        r"name (\S+)",
    )
    .unwrap();
    assert_eq!(pairs(&hosts), vec![pair("a.ru", 10)]);
    let hosts = get_virtual_hosts_from_file(
        &lines_of("begin\nport 10\nname a.ru\n"),
        "^begin",
        "^never$",
        r"port (?P<port>\d+)",
        r"name \S+",
    )
    .unwrap();
    assert!(hosts.is_empty());
    let hosts = get_virtual_hosts_from_file(
        &lines_of("begin\nport 10\nname  a.ru\nname b.ru c.ru\n"),
        "^begin",
        "^never$",
        r"port (?P<port>\d+)",
        r"name (.*)",
    )
    .unwrap();
    assert_eq!(pairs(&hosts), vec![pair("b.ru", 10)]);
    let hosts = get_virtual_hosts_from_file(
        &lines_of("begin\nport 10\nname a.ru[\\s\\t]{2}b.ru\n"),
        "^begin",
        "^never$",
        r"port (?P<port>\d+)",
        r"name (.*)",
    )
    .unwrap();
    assert_eq!(pairs(&hosts), vec![pair("a.ru", 10)]);
    let hosts = get_virtual_hosts_from_file(
        &lines_of("begin\nport 10\nname a.ru\tb.ru\n"),
        "^begin",
        "^never$",
        r"port (?P<port>\d+)",
        r"name (.*)",
    )
    .unwrap();
    assert_eq!(pairs(&hosts), vec![pair("a.ru\tb.ru", 10)]);
}

#[test]
fn a_pattern_that_is_no_regular_expression_fails_the_file() {
    let text = lines_of(NGINX_LISTEN);
    let good = get_nginx_vhost_section_start_regex();
    assert_eq!(
        get_virtual_hosts_from_file(&text, "(", &good, &good, &good).err(),
        Some(PatternError::Invalid)
    );
    assert_eq!(
        get_virtual_hosts_from_file(&text, &good, "(", &good, &good).err(),
        Some(PatternError::Invalid)
    );
    assert_eq!(
        get_virtual_hosts_from_file(&text, &good, &good, "(", &good).err(),
        Some(PatternError::Invalid)
    );
    assert_eq!(
        get_virtual_hosts_from_file(&Vec::new(), &good, &good, &good, "(").err(),
        Some(PatternError::Invalid)
    );
}

#[test]
fn every_host_of_a_file_has_a_domain_and_a_port_in_range() {
    for text in [NGINX_LISTEN, NGINX_SSL_AND_HTTP2, NGINX_RETURN_301, NGINX_COMMENTS, NGINX_VHOST2] {
        for host in nginx_hosts(text).unwrap() {
            assert!(!host.domain.is_empty());
            assert!(1 <= host.port && host.port <= 65535);
        }
    }
}

fn deep_tree() -> PathScan {
    PathScan::Directory(vec![
        file("root", "depth0.conf", NGINX_MULTI_NESTED),
        directory(
            "root",
            "one",
            Some(vec![
                directory(
                    "root/one",
                    "two",
                    Some(vec![file("root/one/two", "depth2.conf", NGINX_VHOST2)]),
                ),
                file("root/one", "depth1.conf", NGINX_MULTI_SECOND),
                file("root/one", "depth1.txt", NGINX_LISTEN),
            ]),
        ),
        directory("root", "locked", None),
        file("root", "other.vhost", NGINX_LISTEN),
    ])
}

#[test]
fn files_of_all_depths_are_listed_in_recursive_mode_only() {
    let extensions = vec![".conf".to_string()];
    let files = get_vhost_config_file_list(&deep_tree(), &extensions, true).unwrap();
    assert_eq!(files, vec!["root/depth0.conf", "root/one/two/depth2.conf", "root/one/depth1.conf"]);
    let files = get_vhost_config_file_list(&deep_tree(), &extensions, false).unwrap();
    assert_eq!(files, vec!["root/depth0.conf"]);
    let both = vec![".vhost".to_string(), ".conf".to_string()];
    let files = get_vhost_config_file_list(&deep_tree(), &both, false).unwrap();
    assert_eq!(files, vec!["root/depth0.conf", "root/other.vhost"]);
    let files = get_vhost_config_file_list(&deep_tree(), &Vec::new(), true).unwrap();
    assert!(files.is_empty());
}

#[test]
fn a_root_that_is_no_readable_directory_fails_the_listing() {
    let extensions = vec![".conf".to_string()];
    assert_eq!(
        get_vhost_config_file_list(&PathScan::Missing, &extensions, true),
        Err(DiscoveryError::Io)
    );
    assert_eq!(
        get_vhost_config_file_list(&PathScan::Unreadable, &extensions, true),
        Err(DiscoveryError::Io)
    );
    assert_eq!(
        get_vhost_config_file_list(&PathScan::Directory(Vec::new()), &extensions, true),
        Ok(Vec::new())
    );
}

#[test]
fn only_files_and_links_with_a_listed_ending_are_vhost_files() {
    let extensions = vec![".conf".to_string(), ".vhost".to_string()];
    let mut entry = file("dir", "site.conf", "");
    assert!(entry_is_vhost_file(&extensions, &entry));
    assert_eq!(get_vhost_file_from_dir(&extensions, &entry), Some("dir/site.conf".to_string()));
    entry.kind = EntryKind::Symlink;
    assert!(entry_is_vhost_file(&extensions, &entry));
    entry.kind = EntryKind::Directory;
    assert!(!entry_is_vhost_file(&extensions, &entry));
    assert_eq!(get_vhost_file_from_dir(&extensions, &entry), None);
    entry.kind = EntryKind::Other;
    assert!(!entry_is_vhost_file(&extensions, &entry));
    entry.kind = EntryKind::File;
    entry.name = None;
    assert!(!entry_is_vhost_file(&extensions, &entry));
    entry.name = Some("site.CONF".to_string());
    assert!(!entry_is_vhost_file(&extensions, &entry));
    entry.name = Some("site.conf.bak".to_string());
    assert!(!entry_is_vhost_file(&extensions, &entry));
    assert!(name_has_extension("a.vhost", &extensions));
    assert!(name_has_extension(".conf", &extensions));
    assert!(!name_has_extension("conf", &extensions));
    assert!(!name_has_extension("", &extensions));
    assert!(name_has_extension("", &vec!["".to_string()]));
    assert!(!name_has_extension("a.conf", &Vec::new()));
}

fn unreadable(dir: &str, name: &str) -> DirEntry {
    DirEntry {
        path: format!("{}/{}", dir, name),
        name: Some(name.to_string()),
        kind: EntryKind::File,
        entries: None,
        lines: None,
    }
}

#[test]
fn a_file_that_cannot_be_read_is_passed_over_or_ends_the_scan() {
    let root = PathScan::Directory(vec![
        file("root", "a.conf", NGINX_MULTI_FIRST),
        unreadable("root", "b.conf"),
        file("root", "c.conf", NGINX_MULTI_SECOND),
    ]);
    let config = get_nginx_discovery_config(false, &vec![".conf".to_string()]);
    let hosts = get_vhosts(&root, &config, false).unwrap();
    assert_eq!(
        pairs(&hosts),
        vec![
            pair("beta.tesla.com", 12398),
            pair("rust-lang.org", 80),
            pair("whatever.ru", 80),
            pair("tesla.com", 443)
        ]
    );
    let hosts = get_vhosts(&root, &config, true).unwrap();
    assert_eq!(pairs(&hosts), vec![pair("beta.tesla.com", 12398), pair("rust-lang.org", 80)]);
}

#[test]
fn hosts_are_not_deduplicated_by_discovery() {
    let root = PathScan::Directory(vec![
        file("root", "a.conf", NGINX_MULTI_SECOND),
        file("root", "b.conf", NGINX_MULTI_SECOND),
    ]);
    let config = get_nginx_discovery_config(false, &vec![".conf".to_string()]);
    let hosts = get_vhosts(&root, &config, false).unwrap();
    assert_eq!(hosts.len(), 4);
}

#[test]
fn discovery_in_subdirectories_follows_the_config() {
    let extensions = vec![".conf".to_string()];
    let config = get_nginx_discovery_config(true, &extensions);
    let hosts = get_vhosts(&deep_tree(), &config, false).unwrap();
    assert_eq!(
        pairs(&hosts),
        vec![
            pair("nested.tesla.com", 8443),
            pair("goodhost.ru", 443),
            pair("whatever.ru", 80),
            pair("tesla.com", 443)
        ]
    );
    let config = get_nginx_discovery_config(false, &extensions);
    let hosts = get_vhosts(&deep_tree(), &config, false).unwrap();
    assert_eq!(pairs(&hosts), vec![pair("nested.tesla.com", 8443)]);
}

#[test]
fn a_root_that_is_no_readable_directory_fails_discovery() {
    let config = get_apache_discovery_config(false, &vec![".conf".to_string()]);
    assert_eq!(get_vhosts(&PathScan::Missing, &config, false).err(), Some(DiscoveryError::NotFound));
    assert_eq!(get_vhosts(&PathScan::Unreadable, &config, true).err(), Some(DiscoveryError::Io));
    assert!(get_vhosts(&PathScan::Directory(Vec::new()), &config, true).unwrap().is_empty());
}

#[test]
fn a_config_with_a_bad_pattern_reads_no_file() {
    let mut config = get_nginx_discovery_config(false, &vec![".conf".to_string()]);
    config.domain = "(".to_string();
    let root = PathScan::Directory(vec![file("root", "a.conf", NGINX_MULTI_FIRST)]);
    assert!(get_vhosts(&root, &config, false).unwrap().is_empty());
    assert!(get_vhosts(&root, &config, true).unwrap().is_empty());
}
