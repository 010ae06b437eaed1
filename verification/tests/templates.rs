//! Tests of the build template model, parser and executor.

use blackship::blueprint::context::BuildContext;
use blackship::blueprint::executor::TemplateExecutor;
use blackship::blueprint::instructions::{BuildArg, CopySpec, ExposePort, Instruction,
    Jailfile};
use blackship::blueprint::parser::{parse_jailfile, parse_line, parse_line_format};

#[test]
fn test_build_context_creation() {
    let ctx = BuildContext::new("/build/context", "/jails/test", "test");

    assert_eq!(ctx.context_dir(), "/build/context");
    assert_eq!(ctx.target_path(), "/jails/test");
    assert_eq!(ctx.jail_name(), "test");
}

#[test]
fn test_variable_substitution() {
    let mut ctx = BuildContext::new("/build", "/jails/myapp", "myapp");
    ctx.set_arg("VERSION", "1.0");
    ctx.set_env("PREFIX", "/usr/local");

    assert_eq!(ctx.substitute("version=${VERSION}"), "version=1.0");
    assert_eq!(ctx.substitute("prefix=$PREFIX"), "prefix=/usr/local");
    assert_eq!(ctx.substitute("jail=${JAIL_NAME}"), "jail=myapp");
}

#[test]
fn test_path_resolution() {
    let ctx = BuildContext::new("/build/context", "/jails/test", "test");

    assert_eq!(ctx.resolve_source("nginx.conf"), "/build/context/nginx.conf");

    assert_eq!(
        ctx.resolve_dest("/etc/nginx/nginx.conf"),
        "/jails/test/etc/nginx/nginx.conf"
    );
}

#[test]
fn test_workdir() {
    let mut ctx = BuildContext::new("/build", "/jails/test", "test");

    assert_eq!(ctx.workdir(), "/");

    ctx.set_workdir("/usr/local");
    assert_eq!(ctx.workdir(), "/usr/local");

    // Relative dest should use workdir
    assert_eq!(ctx.resolve_dest("bin/app"), "/jails/test/usr/local/bin/app");
}

#[test]
fn test_executor_creation() {
    let ctx = BuildContext::new("/build/context", "/jails/test", "test");
    let executor = TemplateExecutor::new(ctx);
    assert_eq!(executor.context().jail_name(), "test");
}

#[test]
fn test_dry_run_mode() {
    let ctx = BuildContext::new("/build/context", "/jails/test", "test");
    let mut executor = TemplateExecutor::new(ctx).dry_run(true);

    // Create a simple jailfile with RUN
    let jailfile = Jailfile::from_release("14.2-RELEASE").run("echo test");

    // Dry run should not fail even with non-existent paths
    let result = executor.execute(&jailfile);
    assert!(result.is_ok());
    assert!(result.unwrap().is_empty());
}

#[test]
fn test_variable_substitution_in_instructions() {
    let ctx = BuildContext::new("/build/context", "/jails/test", "myapp");
    let mut executor = TemplateExecutor::new(ctx).dry_run(true);
    executor.set_arg("VERSION", "1.0");

    let jailfile = Jailfile::from_release("14.2-RELEASE")
        .arg("VERSION", Some("1.0"))
        .env("APP_VERSION", "${VERSION}")
        .env("APP_NAME", "${JAIL_NAME}");

    executor.execute(&jailfile).unwrap();

    assert_eq!(executor.context().get_env("APP_VERSION"), Some("1.0".to_string()));
    assert_eq!(executor.context().get_env("APP_NAME"), Some("myapp".to_string()));
}

#[test]
fn test_build_arg() {
    let arg = BuildArg::new("VERSION").with_default("1.0");
    assert_eq!(arg.name, "VERSION");
    assert_eq!(arg.default, Some("1.0".to_string()));
}

#[test]
fn test_expose_port_parse() {
    let tcp = ExposePort::parse("80/tcp").unwrap();
    assert_eq!(tcp.port, 80);
    assert_eq!(tcp.protocol, "tcp");

    let udp = ExposePort::parse("53/udp").unwrap();
    assert_eq!(udp.port, 53);
    assert_eq!(udp.protocol, "udp");

    let default = ExposePort::parse("443").unwrap();
    assert_eq!(default.port, 443);
    assert_eq!(default.protocol, "tcp");
}

#[test]
fn test_jailfile_builder() {
    let jf = Jailfile::from_release("14.2-RELEASE")
        .arg("VERSION", Some("1.0"))
        .env("PATH", "/usr/local/bin:/usr/bin")
        .run("pkg install -y nginx")
        .copy("nginx.conf", "/usr/local/etc/nginx/nginx.conf")
        .workdir("/usr/local")
        .expose(80, "tcp")
        .cmd("/usr/sbin/service nginx start");

    assert_eq!(jf.from, Some("14.2-RELEASE".to_string()));
    assert_eq!(jf.args.len(), 1);
    assert_eq!(jf.run_commands().len(), 1);
    assert_eq!(jf.copy_specs().len(), 1);
    assert_eq!(jf.expose.len(), 1);
}

#[test]
fn test_instruction_names() {
    assert_eq!(Instruction::From("test".to_string()).name(), "FROM");
    assert_eq!(Instruction::Run("test".to_string()).name(), "RUN");
    assert_eq!(Instruction::Copy(CopySpec::new("a", "b")).name(), "COPY");
}

#[test]
fn test_parse_line_from() {
    let result = parse_line("FROM 14.2-RELEASE").unwrap();
    assert!(matches!(result, Some(Instruction::From(r)) if r == "14.2-RELEASE"));
}

#[test]
fn test_parse_line_run() {
    let result = parse_line("RUN pkg install -y nginx").unwrap();
    assert!(matches!(result, Some(Instruction::Run(c)) if c == "pkg install -y nginx"));
}

#[test]
fn test_parse_line_copy() {
    let result = parse_line("COPY nginx.conf /usr/local/etc/nginx/").unwrap();
    if let Some(Instruction::Copy(spec)) = result {
        assert_eq!(spec.src, "nginx.conf");
        assert_eq!(spec.dest, "/usr/local/etc/nginx/");
    } else {
        panic!("Expected Copy instruction");
    }
}

#[test]
fn test_parse_line_arg() {
    let result = parse_line("ARG VERSION=1.25").unwrap();
    if let Some(Instruction::Arg(arg)) = result {
        assert_eq!(arg.name, "VERSION");
        assert_eq!(arg.default, Some("1.25".to_string()));
    } else {
        panic!("Expected Arg instruction");
    }
}

#[test]
fn test_parse_line_expose() {
    let result = parse_line("EXPOSE 80/tcp").unwrap();
    if let Some(Instruction::Expose(port)) = result {
        assert_eq!(port.port, 80);
        assert_eq!(port.protocol, "tcp");
    } else {
        panic!("Expected Expose instruction");
    }
}

#[test]
fn test_parse_full_jailfile() {
    let content = "
FROM 14.2-RELEASE
ARG NGINX_VERSION=1.25
RUN pkg install -y nginx
COPY nginx.conf /usr/local/etc/nginx/
EXPOSE 80/tcp
CMD /usr/sbin/service nginx start
";

    let jf = parse_line_format(content).unwrap();
    assert_eq!(jf.from, Some("14.2-RELEASE".to_string()));
    assert_eq!(jf.args.len(), 1);
    assert_eq!(jf.run_commands().len(), 1);
    assert_eq!(jf.expose.len(), 1);
    assert_eq!(jf.cmd, Some("/usr/sbin/service nginx start".to_string()));
}

#[test]
fn manifest_form_is_left_to_the_loader() {
    let toml_shaped = "[metadata]\nname = \"x\"\n";
    assert!(parse_jailfile(toml_shaped).is_err());
    let line_shaped = "FROM 14.2-RELEASE\n";
    assert!(parse_jailfile(line_shaped).is_ok());
}
