//! A builder for Docker Compose files: services with their image, command, environment,
//! port mappings and volumes, rendered as YAML text. Starting and stopping the services
//! happens elsewhere.

use vstd::prelude::*;

use crate::text::{decimal, decimal_string, find_first, find_from};

verus! {

/// A volume mounted into a service.
pub struct Volume {
    pub volume_name: String,
    pub volume_type: String,
    pub bind: String,
    pub mode: String,
}

/// One service of a compose file.
pub struct Service {
    pub name: String,
    pub image: String,
    pub command: Option<String>,
    /// Environment variables, in the order given.
    pub environment: Option<Vec<(String, String)>>,
    /// Host port to container port, in the order given.
    pub port_mapping: Option<Vec<(u32, u32)>>,
    pub volumes: Option<Vec<Volume>>,
}

/// Collects services for a compose file.
pub struct DockerComposeBuilder {
    pub services: Vec<Service>,
}

/// A line indented by one level.
pub open spec fn indented(s: Seq<char>) -> Seq<char> {
    "  "@ + s
}

pub open spec fn env_line(kv: (String, String)) -> Seq<char> {
    indented(indented("- "@ + kv.0@ + "="@ + kv.1@))
}

pub open spec fn port_line(p: (u32, u32)) -> Seq<char> {
    indented(indented("- \""@ + decimal(p.0 as nat) + ":"@ + decimal(p.1 as nat) + "\""@))
}

pub open spec fn volume_line(v: Volume) -> Seq<char> {
    indented("- "@ + v.volume_name@ + ":"@ + v.bind@)
}

pub open spec fn command_lines(s: Service) -> Seq<Seq<char>> {
    match s.command {
        Some(c) => seq![indented("command: "@ + c@)],
        None => Seq::empty(),
    }
}

pub open spec fn environment_lines(s: Service) -> Seq<Seq<char>> {
    match s.environment {
        Some(e) => seq![indented("environment:"@)] + e@.map_values(
            |kv: (String, String)| env_line(kv),
        ),
        None => Seq::empty(),
    }
}

pub open spec fn port_lines(s: Service) -> Seq<Seq<char>> {
    match s.port_mapping {
        Some(p) => seq![indented("ports:"@)] + p@.map_values(|p: (u32, u32)| port_line(p)),
        None => Seq::empty(),
    }
}

pub open spec fn volume_lines(s: Service) -> Seq<Seq<char>> {
    match s.volumes {
        Some(v) => seq![indented("volumes:"@)] + v@.map_values(|v: Volume| volume_line(v)),
        None => Seq::empty(),
    }
}

/// The lines of a service: its name, its image, then its command, environment, ports and
/// volumes where it has them.
pub open spec fn service_lines(s: Service) -> Seq<Seq<char>> {
    seq![s.name@ + ":"@, indented("image: "@ + s.image@)] + command_lines(s) + environment_lines(s)
        + port_lines(s) + volume_lines(s)
}

/// Lines joined by newlines, with none after the last.
pub open spec fn join_lines(lines: Seq<Seq<char>>) -> Seq<char>
    decreases lines.len(),
{
    if lines.len() == 0 {
        Seq::empty()
    } else if lines.len() == 1 {
        lines[0]
    } else {
        join_lines(lines.drop_last()) + "\n"@ + lines.last()
    }
}

/// A service's block in the compose file: its lines, indented, joined by newlines.
pub open spec fn service_block(s: Service) -> Seq<char> {
    join_lines(service_lines(s).map_values(|l: Seq<char>| indented(l)))
}

/// The blocks of the services, each followed by a newline.
pub open spec fn service_blocks(services: Seq<Service>) -> Seq<char>
    decreases services.len(),
{
    if services.len() == 0 {
        Seq::empty()
    } else {
        service_blocks(services.drop_last()) + service_block(services.last()) + "\n"@
    }
}

/// The volume names of the services, each as an indented `name:`.
pub open spec fn volume_names(services: Seq<Service>) -> Seq<char>
    decreases services.len(),
{
    if services.len() == 0 {
        Seq::empty()
    } else {
        volume_names(services.drop_last()) + match services.last().volumes {
            Some(v) => volume_name_list(v@),
            None => Seq::empty(),
        }
    }
}

pub open spec fn volume_name_list(vs: Seq<Volume>) -> Seq<char>
    decreases vs.len(),
{
    if vs.len() == 0 {
        Seq::empty()
    } else {
        volume_name_list(vs.drop_last()) + indented(vs.last().volume_name@ + ":"@)
    }
}

pub open spec fn lines_view(v: Seq<String>) -> Seq<Seq<char>> {
    v.map_values(|s: String| s@)
}

/// `string` indented by one level.
pub fn indent(string: String) -> (r: String)
    ensures
        r@ == indented(string@),
{
    String::from_str("  ").concat(string.as_str())
}

proof fn lemma_lines_view_push(v: Seq<String>, s: String)
    ensures
        lines_view(v.push(s)) == lines_view(v).push(s@),
{
    assert(lines_view(v.push(s)) =~= lines_view(v).push(s@));
}

impl Service {
    /// The lines of this service, unindented as a whole.
    pub fn build(&self) -> (r: Vec<String>)
        ensures
            lines_view(r@) == service_lines(*self),
    {
        let mut out: Vec<String> = Vec::new();
        let mut first = self.name.clone();
        first.append(":");
        out.push(first);
        let mut image = String::from_str("image: ");
        image.append(self.image.as_str());
        out.push(indent(image));
        let ghost head = seq![self.name@ + ":"@, indented("image: "@ + self.image@)];
        assert(lines_view(out@) =~= head);

        let ghost with_command = head + command_lines(*self);
        match &self.command {
            Some(command) => {
                let mut line = String::from_str("command: ");
                line.append(command.as_str());
                let line = indent(line);
                proof {
                    lemma_lines_view_push(out@, line);
                }
                out.push(line);
                assert(lines_view(out@) =~= with_command);
            },
            None => {
                assert(lines_view(out@) =~= with_command);
            },
        }

        let ghost with_env = with_command + environment_lines(*self);
        match &self.environment {
            Some(environments) => {
                let line = indent(String::from_str("environment:"));
                proof {
                    lemma_lines_view_push(out@, line);
                }
                out.push(line);
                let ghost start = lines_view(out@);
                let n = environments.len();
                let mut i: usize = 0;
                assert(environments@.take(0).map_values(|kv: (String, String)| env_line(kv))
                    =~= Seq::<Seq<char>>::empty());
                assert(start + Seq::<Seq<char>>::empty() =~= start);
                while i < n
                    invariant
                        n == environments@.len(),
                        i <= n,
                        lines_view(out@) == start + environments@.take(i as int).map_values(
                            |kv: (String, String)| env_line(kv),
                        ),
                    decreases n - i,
                {
                    let kv = &environments[i];
                    let mut line = String::from_str("- ");
                    line.append(kv.0.as_str());
                    line.append("=");
                    line.append(kv.1.as_str());
                    let line = indent(indent(line));
                    proof {
                        lemma_lines_view_push(out@, line);
                        assert(environments@.take(i + 1) =~= environments@.take(i as int).push(
                            environments@[i as int],
                        ));
                        environments@.take(i as int).lemma_push_map_commute(
                            |kv: (String, String)| env_line(kv),
                            environments@[i as int],
                        );
                        assert(line@ == env_line(environments@[i as int]));
                    }
                    out.push(line);
                    assert(lines_view(out@) =~= start + environments@.take(i + 1).map_values(
                        |kv: (String, String)| env_line(kv),
                    ));
                    i = i + 1;
                }
                assert(environments@.take(n as int) =~= environments@);
                assert(lines_view(out@) =~= with_env);
            },
            None => {
                assert(lines_view(out@) =~= with_env);
            },
        }

        let ghost with_ports = with_env + port_lines(*self);
        match &self.port_mapping {
            Some(ports) => {
                let line = indent(String::from_str("ports:"));
                proof {
                    lemma_lines_view_push(out@, line);
                }
                out.push(line);
                let ghost start = lines_view(out@);
                let n = ports.len();
                let mut i: usize = 0;
                assert(ports@.take(0).map_values(|p: (u32, u32)| port_line(p))
                    =~= Seq::<Seq<char>>::empty());
                assert(start + Seq::<Seq<char>>::empty() =~= start);
                while i < n
                    invariant
                        n == ports@.len(),
                        i <= n,
                        lines_view(out@) == start + ports@.take(i as int).map_values(
                            |p: (u32, u32)| port_line(p),
                        ),
                    decreases n - i,
                {
                    let p = ports[i];
                    let mut line = String::from_str("- \"");
                    let source = decimal_string(p.0 as u64);
                    let destination = decimal_string(p.1 as u64);
                    line.append(source.as_str());
                    line.append(":");
                    line.append(destination.as_str());
                    line.append("\"");
                    let line = indent(indent(line));
                    proof {
                        lemma_lines_view_push(out@, line);
                        assert(ports@.take(i + 1) =~= ports@.take(i as int).push(ports@[i as int]));
                        ports@.take(i as int).lemma_push_map_commute(
                            |p: (u32, u32)| port_line(p),
                            ports@[i as int],
                        );
                        assert(line@ == port_line(ports@[i as int]));
                    }
                    out.push(line);
                    assert(lines_view(out@) =~= start + ports@.take(i + 1).map_values(
                        |p: (u32, u32)| port_line(p),
                    ));
                    i = i + 1;
                }
                assert(ports@.take(n as int) =~= ports@);
                assert(lines_view(out@) =~= with_ports);
            },
            None => {
                assert(lines_view(out@) =~= with_ports);
            },
        }

        match &self.volumes {
            Some(volumes) => {
                let line = indent(String::from_str("volumes:"));
                proof {
                    lemma_lines_view_push(out@, line);
                }
                out.push(line);
                let ghost start = lines_view(out@);
                let n = volumes.len();
                let mut i: usize = 0;
                assert(volumes@.take(0).map_values(|v: Volume| volume_line(v))
                    =~= Seq::<Seq<char>>::empty());
                assert(start + Seq::<Seq<char>>::empty() =~= start);
                while i < n
                    invariant
                        n == volumes@.len(),
                        i <= n,
                        lines_view(out@) == start + volumes@.take(i as int).map_values(
                            |v: Volume| volume_line(v),
                        ),
                    decreases n - i,
                {
                    let v = &volumes[i];
                    let mut line = String::from_str("- ");
                    line.append(v.volume_name.as_str());
                    line.append(":");
                    line.append(v.bind.as_str());
                    let line = indent(line);
                    proof {
                        lemma_lines_view_push(out@, line);
                        assert(volumes@.take(i + 1) =~= volumes@.take(i as int).push(
                            volumes@[i as int],
                        ));
                        volumes@.take(i as int).lemma_push_map_commute(
                            |v: Volume| volume_line(v),
                            volumes@[i as int],
                        );
                        assert(line@ == volume_line(volumes@[i as int]));
                    }
                    out.push(line);
                    assert(lines_view(out@) =~= start + volumes@.take(i + 1).map_values(
                        |v: Volume| volume_line(v),
                    ));
                    i = i + 1;
                }
                assert(volumes@.take(n as int) =~= volumes@);
                assert(lines_view(out@) =~= service_lines(*self));
            },
            None => {
                assert(lines_view(out@) =~= service_lines(*self));
            },
        }
        out
    }
}

/// `s` is the service made of these parts.
pub open spec fn service_is(
    s: Service,
    name: Seq<char>,
    image: Seq<char>,
    command: Option<Seq<char>>,
    environment: Option<Vec<(String, String)>>,
    port_mapping: Option<Vec<(u32, u32)>>,
    volumes: Option<Vec<Volume>>,
) -> bool {
    &&& s.name@ == name
    &&& s.image@ == image
    &&& match s.command {
        Some(c) => command == Some(c@),
        None => command is None,
    }
    &&& s.environment == environment
    &&& s.port_mapping == port_mapping
    &&& s.volumes == volumes
}

/// The compose text of the services, under a `service:` key.
pub open spec fn compose_text(services: Seq<Service>) -> Seq<char> {
    "service:\n"@ + service_blocks(services)
}

/// The compose file of the services: their blocks under `services:`, then their volume names
/// under `volumes:`.
pub open spec fn compose_file(services: Seq<Service>) -> Seq<char> {
    "services:\n"@ + service_blocks(services) + "volumes:\n"@ + volume_names(services)
}

impl DockerComposeBuilder {
    /// A builder with no services.
    pub fn new() -> (r: DockerComposeBuilder)
        ensures
            r.services@.len() == 0,
    {
        DockerComposeBuilder { services: Vec::new() }
    }

    /// The builder with one more service, after those it has.
    pub fn add_service(
        self,
        name: &str,
        image: &str,
        command: Option<&str>,
        environment: Option<Vec<(String, String)>>,
        port_mapping: Option<Vec<(u32, u32)>>,
        volumes: Option<Vec<Volume>>,
    ) -> (r: DockerComposeBuilder)
        ensures
            r.services@.len() == self.services@.len() + 1,
            r.services@.drop_last() == self.services@,
            service_is(
                r.services@.last(),
                name@,
                image@,
                match command {
                    Some(c) => Some(c@),
                    None => None,
                },
                environment,
                port_mapping,
                volumes,
            ),
    {
        let mut services = self.services;
        let command = match command {
            Some(c) => Some(String::from_str(c)),
            None => None,
        };
        services.push(
            Service {
                name: String::from_str(name),
                image: String::from_str(image),
                command,
                environment,
                port_mapping,
                volumes,
            },
        );
        assert(services@.drop_last() =~= self.services@);
        DockerComposeBuilder { services }
    }

    /// The block of one service: its lines, indented, joined by newlines.
    pub fn build_service(service: &Service) -> (r: String)
        ensures
            r@ == service_block(*service),
    {
        let lines = service.build();
        let ghost indented_lines = service_lines(*service).map_values(|l: Seq<char>| indented(l));
        let n = lines.len();
        let mut out = String::new();
        let mut i: usize = 0;
        assert(indented_lines.take(0) =~= Seq::<Seq<char>>::empty());
        while i < n
            invariant
                n == lines@.len(),
                lines_view(lines@) == service_lines(*service),
                indented_lines == service_lines(*service).map_values(|l: Seq<char>| indented(l)),
                i <= n,
                out@ == join_lines(indented_lines.take(i as int)),
            decreases n - i,
        {
            if i > 0 {
                out.append("\n");
            }
            let line = indent(lines[i].clone());
            out.append(line.as_str());
            proof {
                assert(lines_view(lines@)[i as int] == lines@[i as int]@);
                assert(indented_lines.take(i + 1).drop_last() =~= indented_lines.take(i as int));
                if i == 0 {
                    assert(out@ =~= join_lines(indented_lines.take(1)));
                } else {
                    assert(out@ =~= join_lines(indented_lines.take(i + 1)));
                }
            }
            i = i + 1;
        }
        assert(indented_lines.take(n as int) =~= indented_lines);
        out
    }

    fn append_service_blocks(&self, sb: &mut String)
        ensures
            final(sb)@ == old(sb)@ + service_blocks(self.services@),
    {
        let n = self.services.len();
        let mut i: usize = 0;
        let ghost start = sb@;
        assert(self.services@.take(0) =~= Seq::<Service>::empty());
        assert(start + Seq::<char>::empty() =~= start);
        while i < n
            invariant
                n == self.services@.len(),
                i <= n,
                start == old(sb)@,
                sb@ == start + service_blocks(self.services@.take(i as int)),
            decreases n - i,
        {
            let block = Self::build_service(&self.services[i]);
            sb.append(block.as_str());
            sb.append("\n");
            proof {
                assert(self.services@.take(i + 1).drop_last() =~= self.services@.take(i as int));
                assert(sb@ =~= start + service_blocks(self.services@.take(i + 1)));
            }
            i = i + 1;
        }
        assert(self.services@.take(n as int) =~= self.services@);
    }

    /// The compose text of the services, under a `service:` key.
    pub fn build_string(&self) -> (r: String)
        ensures
            r@ == compose_text(self.services@),
    {
        let mut sb = String::from_str("service:\n");
        self.append_service_blocks(&mut sb);
        sb
    }

    /// The content of the compose file: the services under `services:`, then the names of
    /// their volumes under `volumes:`.
    pub fn build_file(&self) -> (r: String)
        ensures
            r@ == compose_file(self.services@),
    {
        let mut sb = String::from_str("services:\n");
        self.append_service_blocks(&mut sb);
        sb.append("volumes:\n");
        let n = self.services.len();
        let mut i: usize = 0;
        let ghost start = sb@;
        assert(self.services@.take(0) =~= Seq::<Service>::empty());
        assert(start + Seq::<char>::empty() =~= start);
        while i < n
            invariant
                n == self.services@.len(),
                i <= n,
                sb@ == start + volume_names(self.services@.take(i as int)),
            decreases n - i,
        {
            let ghost before = sb@;
            match &self.services[i].volumes {
                Some(volumes) => {
                    let m = volumes.len();
                    let mut j: usize = 0;
                    assert(volumes@.take(0) =~= Seq::<Volume>::empty());
                    assert(before + Seq::<char>::empty() =~= before);
                    while j < m
                        invariant
                            m == volumes@.len(),
                            j <= m,
                            sb@ == before + volume_name_list(volumes@.take(j as int)),
                        decreases m - j,
                    {
                        let mut entry = volumes[j].volume_name.clone();
                        entry.append(":");
                        let entry = indent(entry);
                        sb.append(entry.as_str());
                        proof {
                            assert(volumes@.take(j + 1).drop_last() =~= volumes@.take(j as int));
                            assert(sb@ =~= before + volume_name_list(volumes@.take(j + 1)));
                        }
                        j = j + 1;
                    }
                    assert(volumes@.take(m as int) =~= volumes@);
                },
                None => {
                    assert(sb@ =~= before + Seq::<char>::empty());
                },
            }
            proof {
                assert(self.services@.take(i + 1).drop_last() =~= self.services@.take(i as int));
                assert(sb@ =~= start + volume_names(self.services@.take(i + 1)));
            }
            i = i + 1;
        }
        assert(self.services@.take(n as int) =~= self.services@);
        sb
    }
}

/// Whether the Docker daemon answers, judged from what `docker info` wrote to stderr: it does
/// unless that output says that it cannot connect.
pub fn daemon_running_from_info(stderr: &str) -> (r: bool)
    ensures
        r == (find_from(stderr@, "Cannot connect to the Docker daemon"@, 0) is None),
{
    find_first(stderr, "Cannot connect to the Docker daemon").is_none()
}

} // verus!
