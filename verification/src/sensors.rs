//! Synthetic generic sensors derived from the snapshot itself.
//!
//! Every deployment gets sensor coverage even without a hardware-monitor
//! bridge: CPU load, memory, per-disk, per-interface, per-temperature and
//! per-GPU readings are expressed as typed sensor records with
//! deterministic identifier paths such as `/cpu/package/load` or
//! `/disk/{mount}/used`.

use crate::stats::{
    spec_centi_gb, spec_centi_mb, spec_percent_centi_sat, spec_sat_sub_u64, centi_gb, centi_mb,
    percent_centi_sat, sat_sub_u64, DiskStat, GpuStat, NetStat, SensorStat, TempStat,
};
use vstd::prelude::*;
use vstd::string::StringExecFns;

verus! {

/// What contracts compare of a sensor record: every field, with text as
/// character runs.
pub struct SensorModel {
    pub sensor_type: Seq<char>,
    pub name: Seq<char>,
    pub identifier: Seq<char>,
    pub parent: Seq<char>,
    pub value: int,
    pub min: Option<int>,
    pub max: Option<int>,
}

/// The model of one record.
pub open spec fn sensor_model(s: SensorStat) -> SensorModel {
    SensorModel {
        sensor_type: s.sensor_type@,
        name: s.name@,
        identifier: s.identifier@,
        parent: s.parent@,
        value: s.value_centi as int,
        min: match s.min_centi {
            Some(v) => Some(v as int),
            None => None,
        },
        max: match s.max_centi {
            Some(v) => Some(v as int),
            None => None,
        },
    }
}

/// The models of a record list.
pub open spec fn sensor_models(s: Seq<SensorStat>) -> Seq<SensorModel> {
    Seq::new(s.len(), |i: int| sensor_model(s[i]))
}

/// A per-second byte rate as a centi-value, saturating.
pub open spec fn spec_rate_centi(v: int) -> int {
    if v * 100 > i64::MAX {
        i64::MAX as int
    } else {
        v * 100
    }
}

/// A per-second byte rate as a centi-value.
pub fn rate_centi(v: u64) -> (r: i64)
    ensures
        r as int == spec_rate_centi(v as int),
{
    let wide: i128 = (v as i128) * 100;
    if wide > 0x7fff_ffff_ffff_ffffi128 {
        i64::MAX
    } else {
        wide as i64
    }
}

/// One fixed-texts sensor model.
pub open spec fn fixed_model(
    sensor_type: Seq<char>,
    name: Seq<char>,
    identifier: Seq<char>,
    parent: Seq<char>,
    value: int,
) -> SensorModel {
    SensorModel { sensor_type, name, identifier, parent, value, min: None, max: None }
}

/// The six head sensors: CPU load twice, then memory used, total, free
/// and load.
pub open spec fn head_models(cpu: int, mem_used: int, mem_total: int) -> Seq<SensorModel> {
    seq![
        fixed_model("load"@, "CPU Package"@, "/cpu/package/load"@, "/cpu/package"@, cpu),
        fixed_model("load"@, "CPU Total"@, "/cpu/total/load"@, "/cpu/total"@, cpu),
        fixed_model("data"@, "Memory Used"@, "/memory/used"@, "/memory"@, spec_centi_gb(mem_used)),
        fixed_model(
            "data"@,
            "Memory Total"@,
            "/memory/total"@,
            "/memory"@,
            spec_centi_gb(mem_total),
        ),
        fixed_model(
            "data"@,
            "Memory Free"@,
            "/memory/free"@,
            "/memory"@,
            spec_centi_gb(spec_sat_sub_u64(mem_total, mem_used)),
        ),
        fixed_model(
            "load"@,
            "Memory Load"@,
            "/memory/load"@,
            "/memory"@,
            spec_percent_centi_sat(mem_used, mem_total),
        ),
    ]
}

/// The four sensors of one disk.
pub open spec fn disk_block(d: DiskStat) -> Seq<SensorModel> {
    let parent = "/disk/"@ + d.mount@;
    seq![
        fixed_model(
            "load"@,
            "Disk "@ + d.mount@ + " Used"@,
            parent + "/load"@,
            parent,
            spec_percent_centi_sat(d.used_bytes as int, d.total_bytes as int),
        ),
        fixed_model(
            "data"@,
            "Disk "@ + d.mount@ + " Used"@,
            parent + "/used"@,
            parent,
            spec_centi_gb(d.used_bytes as int),
        ),
        fixed_model(
            "data"@,
            "Disk "@ + d.mount@ + " Total"@,
            parent + "/total"@,
            parent,
            spec_centi_gb(d.total_bytes as int),
        ),
        fixed_model(
            "data"@,
            "Disk "@ + d.mount@ + " Free"@,
            parent + "/free"@,
            parent,
            spec_centi_gb(spec_sat_sub_u64(d.total_bytes as int, d.used_bytes as int)),
        ),
    ]
}

/// The disk sensors of all disks, in order.
pub open spec fn disk_blocks(s: Seq<DiskStat>) -> Seq<SensorModel>
    decreases s.len(),
{
    if s.len() == 0 {
        Seq::empty()
    } else {
        disk_blocks(s.drop_last()) + disk_block(s.last())
    }
}

/// The four sensors of one interface.
pub open spec fn net_block(n: NetStat) -> Seq<SensorModel> {
    let parent = "/net/"@ + n.iface@;
    seq![
        fixed_model(
            "throughput"@,
            n.iface@ + " RX"@,
            parent + "/rx"@,
            parent,
            spec_rate_centi(n.rx_bytes_per_sec as int),
        ),
        fixed_model(
            "throughput"@,
            n.iface@ + " TX"@,
            parent + "/tx"@,
            parent,
            spec_rate_centi(n.tx_bytes_per_sec as int),
        ),
        fixed_model(
            "data"@,
            n.iface@ + " RX Total"@,
            parent + "/rx_total"@,
            parent,
            spec_centi_mb(n.rx_bytes_total as int),
        ),
        fixed_model(
            "data"@,
            n.iface@ + " TX Total"@,
            parent + "/tx_total"@,
            parent,
            spec_centi_mb(n.tx_bytes_total as int),
        ),
    ]
}

/// The interface sensors of all interfaces, in order.
pub open spec fn net_blocks(s: Seq<NetStat>) -> Seq<SensorModel>
    decreases s.len(),
{
    if s.len() == 0 {
        Seq::empty()
    } else {
        net_blocks(s.drop_last()) + net_block(s.last())
    }
}

/// The sensor of one temperature reading; the critical threshold becomes
/// the sensor's maximum.
pub open spec fn temp_block(t: TempStat) -> Seq<SensorModel> {
    seq![
        SensorModel {
            sensor_type: "temperature"@,
            name: t.sensor@,
            identifier: "/temperature/"@ + t.sensor@,
            parent: "/temperature"@,
            value: t.temperature_centi as int,
            min: None,
            max: match t.critical_temperature_centi {
                Some(v) => Some(v as int),
                None => None,
            },
        },
    ]
}

/// The temperature sensors of all readings, in order.
pub open spec fn temp_blocks(s: Seq<TempStat>) -> Seq<SensorModel>
    decreases s.len(),
{
    if s.len() == 0 {
        Seq::empty()
    } else {
        temp_blocks(s.drop_last()) + temp_block(s.last())
    }
}

/// The sensors of one GPU: only the measurements the record carries.
pub open spec fn gpu_block(g: GpuStat) -> Seq<SensorModel> {
    let parent = "/gpu/"@ + g.id@;
    let load: Seq<SensorModel> = match g.utilization_centi_pct {
        Some(u) => seq![
            fixed_model("load"@, g.name@ + " Load"@, parent + "/load"@, parent, u as int),
        ],
        None => Seq::empty(),
    };
    let temp: Seq<SensorModel> = match g.temperature_centi {
        Some(t) => seq![
            fixed_model(
                "temperature"@,
                g.name@ + " Temp"@,
                parent + "/temperature"@,
                parent,
                t as int,
            ),
        ],
        None => Seq::empty(),
    };
    let mem_used: Seq<SensorModel> = match g.memory_used_bytes {
        Some(u) => seq![
            fixed_model(
                "smalldata"@,
                g.name@ + " Memory Used"@,
                parent + "/memory_used"@,
                parent,
                spec_centi_mb(u as int),
            ),
        ],
        None => Seq::empty(),
    };
    let mem_total: Seq<SensorModel> = match g.memory_total_bytes {
        Some(t) => seq![
            fixed_model(
                "smalldata"@,
                g.name@ + " Memory Total"@,
                parent + "/memory_total"@,
                parent,
                spec_centi_mb(t as int),
            ),
        ],
        None => Seq::empty(),
    };
    let mem_load: Seq<SensorModel> = if g.memory_used_bytes matches Some(u)
        && g.memory_total_bytes matches Some(t) && t > 0 {
        seq![
            fixed_model(
                "load"@,
                g.name@ + " Memory Load"@,
                parent + "/memory_load"@,
                parent,
                spec_percent_centi_sat(
                    g.memory_used_bytes->Some_0 as int,
                    g.memory_total_bytes->Some_0 as int,
                ),
            ),
        ]
    } else {
        Seq::empty()
    };
    load + temp + mem_used + mem_total + mem_load
}

/// The GPU sensors of all GPUs, in order.
pub open spec fn gpu_blocks(s: Seq<GpuStat>) -> Seq<SensorModel>
    decreases s.len(),
{
    if s.len() == 0 {
        Seq::empty()
    } else {
        gpu_blocks(s.drop_last()) + gpu_block(s.last())
    }
}

/// Every synthetic sensor of one snapshot, in a fixed order: head, disks,
/// interfaces, temperatures, GPUs.
pub open spec fn spec_builtin_sensors(
    cpu: int,
    mem_used: int,
    mem_total: int,
    disks: Seq<DiskStat>,
    net: Seq<NetStat>,
    temps: Seq<TempStat>,
    gpus: Seq<GpuStat>,
) -> Seq<SensorModel> {
    head_models(cpu, mem_used, mem_total) + disk_blocks(disks) + net_blocks(net) + temp_blocks(
        temps,
    ) + gpu_blocks(gpus)
}

/// Concatenation of two pieces of text.
fn cat2(a: &str, b: &str) -> (r: String)
    ensures
        r@ == a@ + b@,
{
    let mut s = String::from_str(a);
    s.append(b);
    s
}

/// Concatenation of three pieces of text.
fn cat3(a: &str, b: &str, c: &str) -> (r: String)
    ensures
        r@ == a@ + b@ + c@,
{
    let mut s = String::from_str(a);
    s.append(b);
    s.append(c);
    s
}

/// Pushes one fixed-texts sensor.
fn push_fixed(
    out: &mut Vec<SensorStat>,
    sensor_type: &str,
    name: String,
    identifier: String,
    parent: String,
    value: i64,
)
    ensures
        sensor_models(final(out)@) =~~= sensor_models(old(out)@) + seq![
            fixed_model(sensor_type@, name@, identifier@, parent@, value as int),
        ],
{
    let ghost before = out@;
    out.push(
        SensorStat {
            sensor_type: String::from_str(sensor_type),
            name,
            identifier,
            parent,
            value_centi: value,
            min_centi: None,
            max_centi: None,
        },
    );
    proof {
        assert(forall|a: int| 0 <= a < before.len() ==> #[trigger] out@[a] == before[a]);
    }
}

/// Appends the six head sensors.
fn push_head_sensors(out: &mut Vec<SensorStat>, cpu: i64, mem_used: u64, mem_total: u64)
    ensures
        sensor_models(final(out)@) =~~= sensor_models(old(out)@) + head_models(
            cpu as int,
            mem_used as int,
            mem_total as int,
        ),
{
    push_fixed(
        out,
        "load",
        String::from_str("CPU Package"),
        String::from_str("/cpu/package/load"),
        String::from_str("/cpu/package"),
        cpu,
    );
    push_fixed(
        out,
        "load",
        String::from_str("CPU Total"),
        String::from_str("/cpu/total/load"),
        String::from_str("/cpu/total"),
        cpu,
    );
    push_fixed(
        out,
        "data",
        String::from_str("Memory Used"),
        String::from_str("/memory/used"),
        String::from_str("/memory"),
        centi_gb(mem_used),
    );
    push_fixed(
        out,
        "data",
        String::from_str("Memory Total"),
        String::from_str("/memory/total"),
        String::from_str("/memory"),
        centi_gb(mem_total),
    );
    push_fixed(
        out,
        "data",
        String::from_str("Memory Free"),
        String::from_str("/memory/free"),
        String::from_str("/memory"),
        centi_gb(sat_sub_u64(mem_total, mem_used)),
    );
    push_fixed(
        out,
        "load",
        String::from_str("Memory Load"),
        String::from_str("/memory/load"),
        String::from_str("/memory"),
        percent_centi_sat(mem_used, mem_total),
    );
}

/// Appends the four sensors of one disk.
fn push_disk_sensors(out: &mut Vec<SensorStat>, d: &DiskStat)
    ensures
        sensor_models(final(out)@) =~~= sensor_models(old(out)@) + disk_block(*d),
{
    let parent: String = cat2("/disk/", d.mount.as_str());
    push_fixed(
        out,
        "load",
        cat3("Disk ", d.mount.as_str(), " Used"),
        cat2(parent.as_str(), "/load"),
        parent.clone(),
        percent_centi_sat(d.used_bytes, d.total_bytes),
    );
    push_fixed(
        out,
        "data",
        cat3("Disk ", d.mount.as_str(), " Used"),
        cat2(parent.as_str(), "/used"),
        parent.clone(),
        centi_gb(d.used_bytes),
    );
    push_fixed(
        out,
        "data",
        cat3("Disk ", d.mount.as_str(), " Total"),
        cat2(parent.as_str(), "/total"),
        parent.clone(),
        centi_gb(d.total_bytes),
    );
    push_fixed(
        out,
        "data",
        cat3("Disk ", d.mount.as_str(), " Free"),
        cat2(parent.as_str(), "/free"),
        parent,
        centi_gb(sat_sub_u64(d.total_bytes, d.used_bytes)),
    );
}

/// Appends the four sensors of one interface.
fn push_net_sensors(out: &mut Vec<SensorStat>, n: &NetStat)
    ensures
        sensor_models(final(out)@) =~~= sensor_models(old(out)@) + net_block(*n),
{
    let parent: String = cat2("/net/", n.iface.as_str());
    push_fixed(
        out,
        "throughput",
        cat2(n.iface.as_str(), " RX"),
        cat2(parent.as_str(), "/rx"),
        parent.clone(),
        rate_centi(n.rx_bytes_per_sec),
    );
    push_fixed(
        out,
        "throughput",
        cat2(n.iface.as_str(), " TX"),
        cat2(parent.as_str(), "/tx"),
        parent.clone(),
        rate_centi(n.tx_bytes_per_sec),
    );
    push_fixed(
        out,
        "data",
        cat2(n.iface.as_str(), " RX Total"),
        cat2(parent.as_str(), "/rx_total"),
        parent.clone(),
        centi_mb(n.rx_bytes_total),
    );
    push_fixed(
        out,
        "data",
        cat2(n.iface.as_str(), " TX Total"),
        cat2(parent.as_str(), "/tx_total"),
        parent,
        centi_mb(n.tx_bytes_total),
    );
}

/// Appends the sensor of one temperature reading.
fn push_temp_sensor(out: &mut Vec<SensorStat>, t: &TempStat)
    ensures
        sensor_models(final(out)@) =~~= sensor_models(old(out)@) + temp_block(*t),
{
    let ghost before = out@;
    out.push(
        SensorStat {
            sensor_type: String::from_str("temperature"),
            name: t.sensor.clone(),
            identifier: cat2("/temperature/", t.sensor.as_str()),
            parent: String::from_str("/temperature"),
            value_centi: t.temperature_centi,
            min_centi: None,
            max_centi: t.critical_temperature_centi,
        },
    );
    proof {
        assert(forall|a: int| 0 <= a < before.len() ==> #[trigger] out@[a] == before[a]);
    }
}

/// Appends the sensors of one GPU.
fn push_gpu_sensors(out: &mut Vec<SensorStat>, g: &GpuStat)
    ensures
        sensor_models(final(out)@) =~~= sensor_models(old(out)@) + gpu_block(*g),
{
    let parent: String = cat2("/gpu/", g.id.as_str());
    match g.utilization_centi_pct {
        Some(u) => {
            push_fixed(
                out,
                "load",
                cat2(g.name.as_str(), " Load"),
                cat2(parent.as_str(), "/load"),
                parent.clone(),
                u,
            );
        },
        None => {},
    }
    match g.temperature_centi {
        Some(t) => {
            push_fixed(
                out,
                "temperature",
                cat2(g.name.as_str(), " Temp"),
                cat2(parent.as_str(), "/temperature"),
                parent.clone(),
                t,
            );
        },
        None => {},
    }
    match g.memory_used_bytes {
        Some(u) => {
            push_fixed(
                out,
                "smalldata",
                cat2(g.name.as_str(), " Memory Used"),
                cat2(parent.as_str(), "/memory_used"),
                parent.clone(),
                centi_mb(u),
            );
        },
        None => {},
    }
    match g.memory_total_bytes {
        Some(t) => {
            push_fixed(
                out,
                "smalldata",
                cat2(g.name.as_str(), " Memory Total"),
                cat2(parent.as_str(), "/memory_total"),
                parent.clone(),
                centi_mb(t),
            );
        },
        None => {},
    }
    if g.memory_used_bytes.is_some() && g.memory_total_bytes.is_some() {
        let u = g.memory_used_bytes.unwrap();
        let t = g.memory_total_bytes.unwrap();
        if t > 0 {
            push_fixed(
                out,
                "load",
                cat2(g.name.as_str(), " Memory Load"),
                cat2(parent.as_str(), "/memory_load"),
                parent,
                percent_centi_sat(u, t),
            );
        }
    }
}

/// Builds every synthetic sensor of one snapshot: CPU and memory heads,
/// then per-disk, per-interface, per-temperature and per-GPU readings,
/// with deterministic identifier paths.
pub fn collect_builtin_sensor_stats(
    cpu_usage_centi_pct: i64,
    memory_used_bytes: u64,
    memory_total_bytes: u64,
    disks: &Vec<DiskStat>,
    net: &Vec<NetStat>,
    temps: &Vec<TempStat>,
    gpus: &Vec<GpuStat>,
) -> (r: Vec<SensorStat>)
    ensures
        sensor_models(r@) == spec_builtin_sensors(
            cpu_usage_centi_pct as int,
            memory_used_bytes as int,
            memory_total_bytes as int,
            disks@,
            net@,
            temps@,
            gpus@,
        ),
{
    let mut out: Vec<SensorStat> = Vec::new();
    proof {
        assert(sensor_models(out@) =~= Seq::<SensorModel>::empty());
    }
    push_head_sensors(&mut out, cpu_usage_centi_pct, memory_used_bytes, memory_total_bytes);
    let ghost head = head_models(
        cpu_usage_centi_pct as int,
        memory_used_bytes as int,
        memory_total_bytes as int,
    );
    proof {
        assert(sensor_models(out@) =~~= head);
    }
    let mut i: usize = 0;
    proof {
        assert(disks@.take(0) =~= Seq::<DiskStat>::empty());
    }
    while i < disks.len()
        invariant
            i <= disks@.len(),
            head == head_models(
                cpu_usage_centi_pct as int,
                memory_used_bytes as int,
                memory_total_bytes as int,
            ),
            sensor_models(out@) == head + disk_blocks(disks@.take(i as int)),
        decreases disks.len() - i,
    {
        proof {
            assert(disks@.take(i as int + 1).drop_last() =~= disks@.take(i as int));
        }
        push_disk_sensors(&mut out, &disks[i]);
        proof {
            assert(sensor_models(out@) =~~= head + disk_blocks(disks@.take(i as int + 1)));
        }
        i = i + 1;
    }
    proof {
        assert(disks@.take(disks@.len() as int) =~= disks@);
    }
    let ghost part1 = head + disk_blocks(disks@);
    let mut j: usize = 0;
    proof {
        assert(net@.take(0) =~= Seq::<NetStat>::empty());
    }
    while j < net.len()
        invariant
            j <= net@.len(),
            part1 == head_models(
                cpu_usage_centi_pct as int,
                memory_used_bytes as int,
                memory_total_bytes as int,
            ) + disk_blocks(disks@),
            sensor_models(out@) == part1 + net_blocks(net@.take(j as int)),
        decreases net.len() - j,
    {
        proof {
            assert(net@.take(j as int + 1).drop_last() =~= net@.take(j as int));
        }
        push_net_sensors(&mut out, &net[j]);
        proof {
            assert(sensor_models(out@) =~~= part1 + net_blocks(net@.take(j as int + 1)));
        }
        j = j + 1;
    }
    proof {
        assert(net@.take(net@.len() as int) =~= net@);
    }
    let ghost part2 = part1 + net_blocks(net@);
    let mut k: usize = 0;
    proof {
        assert(temps@.take(0) =~= Seq::<TempStat>::empty());
    }
    while k < temps.len()
        invariant
            k <= temps@.len(),
            part2 == head_models(
                cpu_usage_centi_pct as int,
                memory_used_bytes as int,
                memory_total_bytes as int,
            ) + disk_blocks(disks@) + net_blocks(net@),
            sensor_models(out@) == part2 + temp_blocks(temps@.take(k as int)),
        decreases temps.len() - k,
    {
        proof {
            assert(temps@.take(k as int + 1).drop_last() =~= temps@.take(k as int));
        }
        push_temp_sensor(&mut out, &temps[k]);
        proof {
            assert(sensor_models(out@) =~~= part2 + temp_blocks(temps@.take(k as int + 1)));
        }
        k = k + 1;
    }
    proof {
        assert(temps@.take(temps@.len() as int) =~= temps@);
    }
    let ghost part3 = part2 + temp_blocks(temps@);
    let mut m: usize = 0;
    proof {
        assert(gpus@.take(0) =~= Seq::<GpuStat>::empty());
    }
    while m < gpus.len()
        invariant
            m <= gpus@.len(),
            part3 == head_models(
                cpu_usage_centi_pct as int,
                memory_used_bytes as int,
                memory_total_bytes as int,
            ) + disk_blocks(disks@) + net_blocks(net@) + temp_blocks(temps@),
            sensor_models(out@) == part3 + gpu_blocks(gpus@.take(m as int)),
        decreases gpus.len() - m,
    {
        proof {
            assert(gpus@.take(m as int + 1).drop_last() =~= gpus@.take(m as int));
        }
        push_gpu_sensors(&mut out, &gpus[m]);
        proof {
            assert(sensor_models(out@) =~~= part3 + gpu_blocks(gpus@.take(m as int + 1)));
        }
        m = m + 1;
    }
    proof {
        assert(gpus@.take(gpus@.len() as int) =~= gpus@);
        assert(sensor_models(out@) =~~= spec_builtin_sensors(
            cpu_usage_centi_pct as int,
            memory_used_bytes as int,
            memory_total_bytes as int,
            disks@,
            net@,
            temps@,
            gpus@,
        ));
    }
    out
}

} // verus!
