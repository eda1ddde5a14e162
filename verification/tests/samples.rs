use gnos::samples::{append_r_script, SampleSets};

fn s(x: &str) -> String {
    String::from(x)
}

#[test]
fn sample_sets_keep_recent_samples_by_name() {
    let mut sets: SampleSets<u64> = SampleSets::new();
    sets.add_sample(s("eth0"), 1, 2);
    sets.add_sample(s("eth0"), 2, 2);
    sets.add_sample(s("eth1"), 7, 3);
    sets.add_sample(s("eth0"), 3, 2);
    assert_eq!(sets.num_adds(), 4);
    let (eth0, adds) = sets.get_sample_set("eth0");
    assert_eq!(eth0.to_vec(), vec![2, 3]);
    assert_eq!(adds, 4);
    assert!(sets.has_sample_set("eth0"));
    assert!(!sets.has_sample_set("eth2"));
    let both = sets.get_sample_sets(&vec![s("eth1"), s("eth0")]);
    assert_eq!(both[0].to_vec(), vec![7]);
    assert_eq!(both[1].to_vec(), vec![2, 3]);
}

#[test]
fn r_script_for_one_chart() {
    let mut script = String::new();
    let values = vec![vec![s("1.5"), s("2"), s("0")], vec![s("3"), s("4"), s("5")]];
    append_r_script(
        &mut script,
        "/tmp/in.png",
        &values,
        "0.5",
        "min",
        "Bandwidth",
        "kb/s",
        "10.0.0.1 In",
        &vec![s("eth0"), s("lo")],
    );
    let expected = "library(RColorBrewer)\n\
png('/tmp/in.png', 600, 400)\n\n\
samples1 = c(1.5, 2, 0)\n\
samples2 = c(3, 4, 5)\n\
times = -c(2*0.5, 1*0.5, 0*0.5)\n\n\
max_samples1 = max(samples1)\n\
max_samples2 = max(samples2)\n\
max_samples = max(c(max_samples1, max_samples2))\n\n\
colors = brewer.pal(2, 'Set1')\n\
plot(samples1 ~ times, type = 'l', lwd = 2, col = colors[1], ylim = c(0, max_samples), xlab = 'Time (min)', ylab = 'Bandwidth (kb/s)', main = '10.0.0.1 In')\n\
points(samples2 ~ times, type = 'l', lwd = 2, col = colors[2])\n\
\n\
legend('topleft', c('eth0', 'lo'), fill = c(colors[1], colors[2]))\n\
grid()\n\n\
dev.off()\n";
    assert_eq!(script, expected);
}

#[test]
fn r_script_sections_after_the_first() {
    let mut script = s("library(RColorBrewer)\n");
    append_r_script(&mut script, "/tmp/out.png", &vec![vec![s("7")]], "1", "s", "Bandwidth", "b/s", "Out", &vec![s("eth0")]);
    assert!(script.starts_with("library(RColorBrewer)\n\n####################################################\npng('/tmp/out.png', 600, 400)\n\n"));
    assert!(script.contains("samples1 = c(7)\ntimes = -c(0*1)\n\n"));
    assert!(script.contains("colors = brewer.pal(1, 'Set1')\n"));
    assert!(!script.contains("points("));
    assert!(script.ends_with("legend('topleft', c('eth0'), fill = c(colors[1]))\ngrid()\n\ndev.off()\n"));
}
