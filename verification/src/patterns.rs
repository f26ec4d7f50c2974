//! The fixed pattern tables of the classifiers, as byte strings, each with
//! a spec-level table and an executable copy proved equal to it.

use vstd::prelude::*;

verus! {

/// The executable table holds exactly the bytes of the spec table.
pub open spec fn pats_match(v: Seq<Vec<u8>>, s: Seq<Seq<u8>>) -> bool {
    v.len() == s.len() && forall|k: int| 0 <= k < v.len() ==> #[trigger] v[k]@ == s[k]
}

pub open spec fn gaming_cgroup_patterns() -> Seq<Seq<u8>> {
    seq![
        seq![103u8, 97u8, 109u8, 105u8, 110u8, 103u8, 46u8, 115u8, 108u8, 105u8, 99u8, 101u8],  // gaming.slice
        seq![103u8, 97u8, 109u8, 105u8, 110u8, 103u8, 45u8],  // gaming-
        seq![115u8, 116u8, 101u8, 97u8, 109u8],  // steam
        seq![112u8, 114u8, 111u8, 116u8, 111u8, 110u8],  // proton
        seq![108u8, 117u8, 116u8, 114u8, 105u8, 115u8],  // lutris
        seq![104u8, 101u8, 114u8, 111u8, 105u8, 99u8],  // heroic
        seq![103u8, 97u8, 109u8, 101u8, 115u8, 99u8, 111u8, 112u8, 101u8],  // gamescope
        seq![119u8, 105u8, 110u8, 101u8],  // wine
    ]
}

pub fn gaming_cgroup_pattern_vec() -> (r: Vec<Vec<u8>>)
    ensures
        pats_match(r@, gaming_cgroup_patterns()),
{
    let mut v: Vec<Vec<u8>> = Vec::new();
    let p0: Vec<u8> = vec![103u8, 97u8, 109u8, 105u8, 110u8, 103u8, 46u8, 115u8, 108u8, 105u8, 99u8, 101u8];  // gaming.slice
    v.push(p0);
    let p1: Vec<u8> = vec![103u8, 97u8, 109u8, 105u8, 110u8, 103u8, 45u8];  // gaming-
    v.push(p1);
    let p2: Vec<u8> = vec![115u8, 116u8, 101u8, 97u8, 109u8];  // steam
    v.push(p2);
    let p3: Vec<u8> = vec![112u8, 114u8, 111u8, 116u8, 111u8, 110u8];  // proton
    v.push(p3);
    let p4: Vec<u8> = vec![108u8, 117u8, 116u8, 114u8, 105u8, 115u8];  // lutris
    v.push(p4);
    let p5: Vec<u8> = vec![104u8, 101u8, 114u8, 111u8, 105u8, 99u8];  // heroic
    v.push(p5);
    let p6: Vec<u8> = vec![103u8, 97u8, 109u8, 101u8, 115u8, 99u8, 111u8, 112u8, 101u8];  // gamescope
    v.push(p6);
    let p7: Vec<u8> = vec![119u8, 105u8, 110u8, 101u8];  // wine
    v.push(p7);
    proof {
        assert(v@[0]@ =~= gaming_cgroup_patterns()[0]);
        assert(v@[1]@ =~= gaming_cgroup_patterns()[1]);
        assert(v@[2]@ =~= gaming_cgroup_patterns()[2]);
        assert(v@[3]@ =~= gaming_cgroup_patterns()[3]);
        assert(v@[4]@ =~= gaming_cgroup_patterns()[4]);
        assert(v@[5]@ =~= gaming_cgroup_patterns()[5]);
        assert(v@[6]@ =~= gaming_cgroup_patterns()[6]);
        assert(v@[7]@ =~= gaming_cgroup_patterns()[7]);
    }
    v
}

pub open spec fn ai_cgroup_patterns() -> Seq<Seq<u8>> {
    seq![
        seq![111u8, 108u8, 108u8, 97u8, 109u8, 97u8],  // ollama
        seq![112u8, 121u8, 116u8, 111u8, 114u8, 99u8, 104u8],  // pytorch
        seq![116u8, 101u8, 110u8, 115u8, 111u8, 114u8, 102u8, 108u8, 111u8, 119u8],  // tensorflow
        seq![99u8, 117u8, 100u8, 97u8],  // cuda
    ]
}

pub fn ai_cgroup_pattern_vec() -> (r: Vec<Vec<u8>>)
    ensures
        pats_match(r@, ai_cgroup_patterns()),
{
    let mut v: Vec<Vec<u8>> = Vec::new();
    let p0: Vec<u8> = vec![111u8, 108u8, 108u8, 97u8, 109u8, 97u8];  // ollama
    v.push(p0);
    let p1: Vec<u8> = vec![112u8, 121u8, 116u8, 111u8, 114u8, 99u8, 104u8];  // pytorch
    v.push(p1);
    let p2: Vec<u8> = vec![116u8, 101u8, 110u8, 115u8, 111u8, 114u8, 102u8, 108u8, 111u8, 119u8];  // tensorflow
    v.push(p2);
    let p3: Vec<u8> = vec![99u8, 117u8, 100u8, 97u8];  // cuda
    v.push(p3);
    proof {
        assert(v@[0]@ =~= ai_cgroup_patterns()[0]);
        assert(v@[1]@ =~= ai_cgroup_patterns()[1]);
        assert(v@[2]@ =~= ai_cgroup_patterns()[2]);
        assert(v@[3]@ =~= ai_cgroup_patterns()[3]);
    }
    v
}

pub open spec fn container_cgroup_patterns() -> Seq<Seq<u8>> {
    seq![
        seq![100u8, 111u8, 99u8, 107u8, 101u8, 114u8],  // docker
        seq![108u8, 105u8, 98u8, 112u8, 111u8, 100u8],  // libpod
        seq![112u8, 111u8, 100u8, 109u8, 97u8, 110u8],  // podman
        seq![99u8, 111u8, 110u8, 116u8, 97u8, 105u8, 110u8, 101u8, 114u8, 100u8],  // containerd
        seq![99u8, 114u8, 105u8, 45u8, 111u8],  // cri-o
        seq![108u8, 120u8, 99u8],  // lxc
    ]
}

pub fn container_cgroup_pattern_vec() -> (r: Vec<Vec<u8>>)
    ensures
        pats_match(r@, container_cgroup_patterns()),
{
    let mut v: Vec<Vec<u8>> = Vec::new();
    let p0: Vec<u8> = vec![100u8, 111u8, 99u8, 107u8, 101u8, 114u8];  // docker
    v.push(p0);
    let p1: Vec<u8> = vec![108u8, 105u8, 98u8, 112u8, 111u8, 100u8];  // libpod
    v.push(p1);
    let p2: Vec<u8> = vec![112u8, 111u8, 100u8, 109u8, 97u8, 110u8];  // podman
    v.push(p2);
    let p3: Vec<u8> = vec![99u8, 111u8, 110u8, 116u8, 97u8, 105u8, 110u8, 101u8, 114u8, 100u8];  // containerd
    v.push(p3);
    let p4: Vec<u8> = vec![99u8, 114u8, 105u8, 45u8, 111u8];  // cri-o
    v.push(p4);
    let p5: Vec<u8> = vec![108u8, 120u8, 99u8];  // lxc
    v.push(p5);
    proof {
        assert(v@[0]@ =~= container_cgroup_patterns()[0]);
        assert(v@[1]@ =~= container_cgroup_patterns()[1]);
        assert(v@[2]@ =~= container_cgroup_patterns()[2]);
        assert(v@[3]@ =~= container_cgroup_patterns()[3]);
        assert(v@[4]@ =~= container_cgroup_patterns()[4]);
        assert(v@[5]@ =~= container_cgroup_patterns()[5]);
    }
    v
}

pub open spec fn vm_cgroup_patterns() -> Seq<Seq<u8>> {
    seq![
        seq![109u8, 97u8, 99u8, 104u8, 105u8, 110u8, 101u8, 45u8, 113u8, 101u8, 109u8, 117u8],  // machine-qemu
        seq![109u8, 97u8, 99u8, 104u8, 105u8, 110u8, 101u8, 46u8, 115u8, 108u8, 105u8, 99u8, 101u8],  // machine.slice
        seq![108u8, 105u8, 98u8, 118u8, 105u8, 114u8, 116u8],  // libvirt
    ]
}

pub fn vm_cgroup_pattern_vec() -> (r: Vec<Vec<u8>>)
    ensures
        pats_match(r@, vm_cgroup_patterns()),
{
    let mut v: Vec<Vec<u8>> = Vec::new();
    let p0: Vec<u8> = vec![109u8, 97u8, 99u8, 104u8, 105u8, 110u8, 101u8, 45u8, 113u8, 101u8, 109u8, 117u8];  // machine-qemu
    v.push(p0);
    let p1: Vec<u8> = vec![109u8, 97u8, 99u8, 104u8, 105u8, 110u8, 101u8, 46u8, 115u8, 108u8, 105u8, 99u8, 101u8];  // machine.slice
    v.push(p1);
    let p2: Vec<u8> = vec![108u8, 105u8, 98u8, 118u8, 105u8, 114u8, 116u8];  // libvirt
    v.push(p2);
    proof {
        assert(v@[0]@ =~= vm_cgroup_patterns()[0]);
        assert(v@[1]@ =~= vm_cgroup_patterns()[1]);
        assert(v@[2]@ =~= vm_cgroup_patterns()[2]);
    }
    v
}

pub open spec fn batch_cgroup_patterns() -> Seq<Seq<u8>> {
    seq![
        seq![115u8, 121u8, 115u8, 116u8, 101u8, 109u8, 46u8, 115u8, 108u8, 105u8, 99u8, 101u8],  // system.slice
        seq![98u8, 97u8, 99u8, 107u8, 103u8, 114u8, 111u8, 117u8, 110u8, 100u8, 46u8, 115u8, 108u8, 105u8, 99u8, 101u8],  // background.slice
    ]
}

pub fn batch_cgroup_pattern_vec() -> (r: Vec<Vec<u8>>)
    ensures
        pats_match(r@, batch_cgroup_patterns()),
{
    let mut v: Vec<Vec<u8>> = Vec::new();
    let p0: Vec<u8> = vec![115u8, 121u8, 115u8, 116u8, 101u8, 109u8, 46u8, 115u8, 108u8, 105u8, 99u8, 101u8];  // system.slice
    v.push(p0);
    let p1: Vec<u8> = vec![98u8, 97u8, 99u8, 107u8, 103u8, 114u8, 111u8, 117u8, 110u8, 100u8, 46u8, 115u8, 108u8, 105u8, 99u8, 101u8];  // background.slice
    v.push(p1);
    proof {
        assert(v@[0]@ =~= batch_cgroup_patterns()[0]);
        assert(v@[1]@ =~= batch_cgroup_patterns()[1]);
    }
    v
}

pub open spec fn gaming_exe_patterns() -> Seq<Seq<u8>> {
    seq![
        seq![119u8, 105u8, 110u8, 101u8],  // wine
        seq![112u8, 114u8, 111u8, 116u8, 111u8, 110u8],  // proton
        seq![115u8, 116u8, 101u8, 97u8, 109u8],  // steam
        seq![108u8, 117u8, 116u8, 114u8, 105u8, 115u8],  // lutris
        seq![104u8, 101u8, 114u8, 111u8, 105u8, 99u8],  // heroic
        seq![103u8, 97u8, 109u8, 101u8, 115u8, 99u8, 111u8, 112u8, 101u8],  // gamescope
        seq![112u8, 114u8, 101u8, 115u8, 115u8, 117u8, 114u8, 101u8, 45u8, 118u8, 101u8, 115u8, 115u8, 101u8, 108u8],  // pressure-vessel
    ]
}

pub fn gaming_exe_pattern_vec() -> (r: Vec<Vec<u8>>)
    ensures
        pats_match(r@, gaming_exe_patterns()),
{
    let mut v: Vec<Vec<u8>> = Vec::new();
    let p0: Vec<u8> = vec![119u8, 105u8, 110u8, 101u8];  // wine
    v.push(p0);
    let p1: Vec<u8> = vec![112u8, 114u8, 111u8, 116u8, 111u8, 110u8];  // proton
    v.push(p1);
    let p2: Vec<u8> = vec![115u8, 116u8, 101u8, 97u8, 109u8];  // steam
    v.push(p2);
    let p3: Vec<u8> = vec![108u8, 117u8, 116u8, 114u8, 105u8, 115u8];  // lutris
    v.push(p3);
    let p4: Vec<u8> = vec![104u8, 101u8, 114u8, 111u8, 105u8, 99u8];  // heroic
    v.push(p4);
    let p5: Vec<u8> = vec![103u8, 97u8, 109u8, 101u8, 115u8, 99u8, 111u8, 112u8, 101u8];  // gamescope
    v.push(p5);
    let p6: Vec<u8> = vec![112u8, 114u8, 101u8, 115u8, 115u8, 117u8, 114u8, 101u8, 45u8, 118u8, 101u8, 115u8, 115u8, 101u8, 108u8];  // pressure-vessel
    v.push(p6);
    proof {
        assert(v@[0]@ =~= gaming_exe_patterns()[0]);
        assert(v@[1]@ =~= gaming_exe_patterns()[1]);
        assert(v@[2]@ =~= gaming_exe_patterns()[2]);
        assert(v@[3]@ =~= gaming_exe_patterns()[3]);
        assert(v@[4]@ =~= gaming_exe_patterns()[4]);
        assert(v@[5]@ =~= gaming_exe_patterns()[5]);
        assert(v@[6]@ =~= gaming_exe_patterns()[6]);
    }
    v
}

pub open spec fn gaming_env_patterns() -> Seq<Seq<u8>> {
    seq![
        seq![87u8, 73u8, 78u8, 69u8, 80u8, 82u8, 69u8, 70u8, 73u8, 88u8],  // WINEPREFIX
        seq![83u8, 84u8, 69u8, 65u8, 77u8, 95u8, 67u8, 79u8, 77u8, 80u8, 65u8, 84u8, 95u8, 68u8, 65u8, 84u8, 65u8, 95u8, 80u8, 65u8, 84u8, 72u8],  // STEAM_COMPAT_DATA_PATH
        seq![83u8, 84u8, 69u8, 65u8, 77u8, 95u8, 67u8, 79u8, 77u8, 80u8, 65u8, 84u8, 95u8, 67u8, 76u8, 73u8, 69u8, 78u8, 84u8, 95u8, 73u8, 78u8, 83u8, 84u8, 65u8, 76u8, 76u8, 95u8, 80u8, 65u8, 84u8, 72u8],  // STEAM_COMPAT_CLIENT_INSTALL_PATH
        seq![80u8, 82u8, 79u8, 84u8, 79u8, 78u8, 95u8, 76u8, 79u8, 71u8],  // PROTON_LOG
        seq![68u8, 88u8, 86u8, 75u8, 95u8],  // DXVK_
        seq![86u8, 75u8, 68u8, 51u8, 68u8, 95u8],  // VKD3D_
        seq![87u8, 73u8, 78u8, 69u8, 95u8],  // WINE_
    ]
}

pub fn gaming_env_pattern_vec() -> (r: Vec<Vec<u8>>)
    ensures
        pats_match(r@, gaming_env_patterns()),
{
    let mut v: Vec<Vec<u8>> = Vec::new();
    let p0: Vec<u8> = vec![87u8, 73u8, 78u8, 69u8, 80u8, 82u8, 69u8, 70u8, 73u8, 88u8];  // WINEPREFIX
    v.push(p0);
    let p1: Vec<u8> = vec![83u8, 84u8, 69u8, 65u8, 77u8, 95u8, 67u8, 79u8, 77u8, 80u8, 65u8, 84u8, 95u8, 68u8, 65u8, 84u8, 65u8, 95u8, 80u8, 65u8, 84u8, 72u8];  // STEAM_COMPAT_DATA_PATH
    v.push(p1);
    let p2: Vec<u8> = vec![83u8, 84u8, 69u8, 65u8, 77u8, 95u8, 67u8, 79u8, 77u8, 80u8, 65u8, 84u8, 95u8, 67u8, 76u8, 73u8, 69u8, 78u8, 84u8, 95u8, 73u8, 78u8, 83u8, 84u8, 65u8, 76u8, 76u8, 95u8, 80u8, 65u8, 84u8, 72u8];  // STEAM_COMPAT_CLIENT_INSTALL_PATH
    v.push(p2);
    let p3: Vec<u8> = vec![80u8, 82u8, 79u8, 84u8, 79u8, 78u8, 95u8, 76u8, 79u8, 71u8];  // PROTON_LOG
    v.push(p3);
    let p4: Vec<u8> = vec![68u8, 88u8, 86u8, 75u8, 95u8];  // DXVK_
    v.push(p4);
    let p5: Vec<u8> = vec![86u8, 75u8, 68u8, 51u8, 68u8, 95u8];  // VKD3D_
    v.push(p5);
    let p6: Vec<u8> = vec![87u8, 73u8, 78u8, 69u8, 95u8];  // WINE_
    v.push(p6);
    proof {
        assert(v@[0]@ =~= gaming_env_patterns()[0]);
        assert(v@[1]@ =~= gaming_env_patterns()[1]);
        assert(v@[2]@ =~= gaming_env_patterns()[2]);
        assert(v@[3]@ =~= gaming_env_patterns()[3]);
        assert(v@[4]@ =~= gaming_env_patterns()[4]);
        assert(v@[5]@ =~= gaming_env_patterns()[5]);
        assert(v@[6]@ =~= gaming_env_patterns()[6]);
    }
    v
}

pub open spec fn ai_exe_patterns() -> Seq<Seq<u8>> {
    seq![
        seq![111u8, 108u8, 108u8, 97u8, 109u8, 97u8],  // ollama
        seq![108u8, 108u8, 97u8, 109u8, 97u8],  // llama
        seq![112u8, 121u8, 116u8, 111u8, 114u8, 99u8, 104u8],  // pytorch
        seq![112u8, 121u8, 116u8, 104u8, 111u8, 110u8],  // python
    ]
}

pub fn ai_exe_pattern_vec() -> (r: Vec<Vec<u8>>)
    ensures
        pats_match(r@, ai_exe_patterns()),
{
    let mut v: Vec<Vec<u8>> = Vec::new();
    let p0: Vec<u8> = vec![111u8, 108u8, 108u8, 97u8, 109u8, 97u8];  // ollama
    v.push(p0);
    let p1: Vec<u8> = vec![108u8, 108u8, 97u8, 109u8, 97u8];  // llama
    v.push(p1);
    let p2: Vec<u8> = vec![112u8, 121u8, 116u8, 111u8, 114u8, 99u8, 104u8];  // pytorch
    v.push(p2);
    let p3: Vec<u8> = vec![112u8, 121u8, 116u8, 104u8, 111u8, 110u8];  // python
    v.push(p3);
    proof {
        assert(v@[0]@ =~= ai_exe_patterns()[0]);
        assert(v@[1]@ =~= ai_exe_patterns()[1]);
        assert(v@[2]@ =~= ai_exe_patterns()[2]);
        assert(v@[3]@ =~= ai_exe_patterns()[3]);
    }
    v
}

pub open spec fn ai_env_patterns() -> Seq<Seq<u8>> {
    seq![
        seq![79u8, 76u8, 76u8, 65u8, 77u8, 65u8, 95u8],  // OLLAMA_
        seq![67u8, 85u8, 68u8, 65u8, 95u8, 86u8, 73u8, 83u8, 73u8, 66u8, 76u8, 69u8, 95u8, 68u8, 69u8, 86u8, 73u8, 67u8, 69u8, 83u8],  // CUDA_VISIBLE_DEVICES
        seq![80u8, 89u8, 84u8, 79u8, 82u8, 67u8, 72u8, 95u8],  // PYTORCH_
        seq![84u8, 70u8, 95u8],  // TF_
    ]
}

pub fn ai_env_pattern_vec() -> (r: Vec<Vec<u8>>)
    ensures
        pats_match(r@, ai_env_patterns()),
{
    let mut v: Vec<Vec<u8>> = Vec::new();
    let p0: Vec<u8> = vec![79u8, 76u8, 76u8, 65u8, 77u8, 65u8, 95u8];  // OLLAMA_
    v.push(p0);
    let p1: Vec<u8> = vec![67u8, 85u8, 68u8, 65u8, 95u8, 86u8, 73u8, 83u8, 73u8, 66u8, 76u8, 69u8, 95u8, 68u8, 69u8, 86u8, 73u8, 67u8, 69u8, 83u8];  // CUDA_VISIBLE_DEVICES
    v.push(p1);
    let p2: Vec<u8> = vec![80u8, 89u8, 84u8, 79u8, 82u8, 67u8, 72u8, 95u8];  // PYTORCH_
    v.push(p2);
    let p3: Vec<u8> = vec![84u8, 70u8, 95u8];  // TF_
    v.push(p3);
    proof {
        assert(v@[0]@ =~= ai_env_patterns()[0]);
        assert(v@[1]@ =~= ai_env_patterns()[1]);
        assert(v@[2]@ =~= ai_env_patterns()[2]);
        assert(v@[3]@ =~= ai_env_patterns()[3]);
    }
    v
}

pub open spec fn ai_container_patterns() -> Seq<Seq<u8>> {
    seq![
        seq![111u8, 108u8, 108u8, 97u8, 109u8, 97u8],  // ollama
        seq![111u8, 108u8, 108u8, 97u8, 109u8, 97u8, 95u8, 108u8, 108u8, 97u8, 109u8, 97u8, 95u8, 115u8, 101u8, 114u8, 118u8, 101u8, 114u8],  // ollama_llama_server
        seq![108u8, 108u8, 97u8, 109u8, 97u8],  // llama
        seq![112u8, 121u8, 116u8, 111u8, 114u8, 99u8, 104u8],  // pytorch
        seq![116u8, 111u8, 114u8, 99u8, 104u8],  // torch
        seq![116u8, 101u8, 110u8, 115u8, 111u8, 114u8, 102u8, 108u8, 111u8, 119u8],  // tensorflow
        seq![116u8, 102u8, 95u8],  // tf_
        seq![116u8, 114u8, 97u8, 110u8, 115u8, 102u8, 111u8, 114u8, 109u8, 101u8, 114u8, 115u8],  // transformers
        seq![104u8, 117u8, 103u8, 103u8, 105u8, 110u8, 103u8, 102u8, 97u8, 99u8, 101u8],  // huggingface
        seq![118u8, 108u8, 108u8, 109u8],  // vllm
        seq![116u8, 114u8, 105u8, 116u8, 111u8, 110u8],  // triton
        seq![111u8, 110u8, 110u8, 120u8],  // onnx
        seq![99u8, 117u8, 100u8, 97u8],  // cuda
    ]
}

pub fn ai_container_pattern_vec() -> (r: Vec<Vec<u8>>)
    ensures
        pats_match(r@, ai_container_patterns()),
{
    let mut v: Vec<Vec<u8>> = Vec::new();
    let p0: Vec<u8> = vec![111u8, 108u8, 108u8, 97u8, 109u8, 97u8];  // ollama
    v.push(p0);
    let p1: Vec<u8> = vec![111u8, 108u8, 108u8, 97u8, 109u8, 97u8, 95u8, 108u8, 108u8, 97u8, 109u8, 97u8, 95u8, 115u8, 101u8, 114u8, 118u8, 101u8, 114u8];  // ollama_llama_server
    v.push(p1);
    let p2: Vec<u8> = vec![108u8, 108u8, 97u8, 109u8, 97u8];  // llama
    v.push(p2);
    let p3: Vec<u8> = vec![112u8, 121u8, 116u8, 111u8, 114u8, 99u8, 104u8];  // pytorch
    v.push(p3);
    let p4: Vec<u8> = vec![116u8, 111u8, 114u8, 99u8, 104u8];  // torch
    v.push(p4);
    let p5: Vec<u8> = vec![116u8, 101u8, 110u8, 115u8, 111u8, 114u8, 102u8, 108u8, 111u8, 119u8];  // tensorflow
    v.push(p5);
    let p6: Vec<u8> = vec![116u8, 102u8, 95u8];  // tf_
    v.push(p6);
    let p7: Vec<u8> = vec![116u8, 114u8, 97u8, 110u8, 115u8, 102u8, 111u8, 114u8, 109u8, 101u8, 114u8, 115u8];  // transformers
    v.push(p7);
    let p8: Vec<u8> = vec![104u8, 117u8, 103u8, 103u8, 105u8, 110u8, 103u8, 102u8, 97u8, 99u8, 101u8];  // huggingface
    v.push(p8);
    let p9: Vec<u8> = vec![118u8, 108u8, 108u8, 109u8];  // vllm
    v.push(p9);
    let p10: Vec<u8> = vec![116u8, 114u8, 105u8, 116u8, 111u8, 110u8];  // triton
    v.push(p10);
    let p11: Vec<u8> = vec![111u8, 110u8, 110u8, 120u8];  // onnx
    v.push(p11);
    let p12: Vec<u8> = vec![99u8, 117u8, 100u8, 97u8];  // cuda
    v.push(p12);
    proof {
        assert(v@[0]@ =~= ai_container_patterns()[0]);
        assert(v@[1]@ =~= ai_container_patterns()[1]);
        assert(v@[2]@ =~= ai_container_patterns()[2]);
        assert(v@[3]@ =~= ai_container_patterns()[3]);
        assert(v@[4]@ =~= ai_container_patterns()[4]);
        assert(v@[5]@ =~= ai_container_patterns()[5]);
        assert(v@[6]@ =~= ai_container_patterns()[6]);
        assert(v@[7]@ =~= ai_container_patterns()[7]);
        assert(v@[8]@ =~= ai_container_patterns()[8]);
        assert(v@[9]@ =~= ai_container_patterns()[9]);
        assert(v@[10]@ =~= ai_container_patterns()[10]);
        assert(v@[11]@ =~= ai_container_patterns()[11]);
        assert(v@[12]@ =~= ai_container_patterns()[12]);
    }
    v
}

pub open spec fn gaming_container_patterns() -> Seq<Seq<u8>> {
    seq![
        seq![115u8, 116u8, 101u8, 97u8, 109u8],  // steam
        seq![112u8, 114u8, 111u8, 116u8, 111u8, 110u8],  // proton
        seq![119u8, 105u8, 110u8, 101u8],  // wine
        seq![103u8, 97u8, 109u8, 101u8, 115u8, 99u8, 111u8, 112u8, 101u8],  // gamescope
    ]
}

pub fn gaming_container_pattern_vec() -> (r: Vec<Vec<u8>>)
    ensures
        pats_match(r@, gaming_container_patterns()),
{
    let mut v: Vec<Vec<u8>> = Vec::new();
    let p0: Vec<u8> = vec![115u8, 116u8, 101u8, 97u8, 109u8];  // steam
    v.push(p0);
    let p1: Vec<u8> = vec![112u8, 114u8, 111u8, 116u8, 111u8, 110u8];  // proton
    v.push(p1);
    let p2: Vec<u8> = vec![119u8, 105u8, 110u8, 101u8];  // wine
    v.push(p2);
    let p3: Vec<u8> = vec![103u8, 97u8, 109u8, 101u8, 115u8, 99u8, 111u8, 112u8, 101u8];  // gamescope
    v.push(p3);
    proof {
        assert(v@[0]@ =~= gaming_container_patterns()[0]);
        assert(v@[1]@ =~= gaming_container_patterns()[1]);
        assert(v@[2]@ =~= gaming_container_patterns()[2]);
        assert(v@[3]@ =~= gaming_container_patterns()[3]);
    }
    v
}

pub open spec fn compute_container_patterns() -> Seq<Seq<u8>> {
    seq![
        seq![110u8, 118u8, 105u8, 100u8, 105u8, 97u8, 45u8, 115u8, 109u8, 105u8],  // nvidia-smi
        seq![99u8, 117u8, 100u8, 97u8, 45u8],  // cuda-
        seq![110u8, 118u8, 99u8, 99u8],  // nvcc
        seq![110u8, 99u8, 99u8, 108u8],  // nccl
        seq![99u8, 117u8, 100u8, 110u8, 110u8],  // cudnn
    ]
}

pub fn compute_container_pattern_vec() -> (r: Vec<Vec<u8>>)
    ensures
        pats_match(r@, compute_container_patterns()),
{
    let mut v: Vec<Vec<u8>> = Vec::new();
    let p0: Vec<u8> = vec![110u8, 118u8, 105u8, 100u8, 105u8, 97u8, 45u8, 115u8, 109u8, 105u8];  // nvidia-smi
    v.push(p0);
    let p1: Vec<u8> = vec![99u8, 117u8, 100u8, 97u8, 45u8];  // cuda-
    v.push(p1);
    let p2: Vec<u8> = vec![110u8, 118u8, 99u8, 99u8];  // nvcc
    v.push(p2);
    let p3: Vec<u8> = vec![110u8, 99u8, 99u8, 108u8];  // nccl
    v.push(p3);
    let p4: Vec<u8> = vec![99u8, 117u8, 100u8, 110u8, 110u8];  // cudnn
    v.push(p4);
    proof {
        assert(v@[0]@ =~= compute_container_patterns()[0]);
        assert(v@[1]@ =~= compute_container_patterns()[1]);
        assert(v@[2]@ =~= compute_container_patterns()[2]);
        assert(v@[3]@ =~= compute_container_patterns()[3]);
        assert(v@[4]@ =~= compute_container_patterns()[4]);
    }
    v
}

pub open spec fn gaming_vm_name_patterns() -> Seq<Seq<u8>> {
    seq![
        seq![103u8, 97u8, 109u8, 105u8, 110u8, 103u8],  // gaming
        seq![119u8, 105u8, 110u8, 100u8, 111u8, 119u8, 115u8],  // windows
        seq![103u8, 97u8, 109u8, 101u8],  // game
    ]
}

pub fn gaming_vm_name_pattern_vec() -> (r: Vec<Vec<u8>>)
    ensures
        pats_match(r@, gaming_vm_name_patterns()),
{
    let mut v: Vec<Vec<u8>> = Vec::new();
    let p0: Vec<u8> = vec![103u8, 97u8, 109u8, 105u8, 110u8, 103u8];  // gaming
    v.push(p0);
    let p1: Vec<u8> = vec![119u8, 105u8, 110u8, 100u8, 111u8, 119u8, 115u8];  // windows
    v.push(p1);
    let p2: Vec<u8> = vec![103u8, 97u8, 109u8, 101u8];  // game
    v.push(p2);
    proof {
        assert(v@[0]@ =~= gaming_vm_name_patterns()[0]);
        assert(v@[1]@ =~= gaming_vm_name_patterns()[1]);
        assert(v@[2]@ =~= gaming_vm_name_patterns()[2]);
    }
    v
}

pub open spec fn ai_vm_name_patterns() -> Seq<Seq<u8>> {
    seq![
        seq![111u8, 108u8, 108u8, 97u8, 109u8, 97u8],  // ollama
        seq![97u8, 105u8],  // ai
        seq![109u8, 108u8],  // ml
        seq![99u8, 117u8, 100u8, 97u8],  // cuda
        seq![112u8, 121u8, 116u8, 111u8, 114u8, 99u8, 104u8],  // pytorch
        seq![116u8, 101u8, 110u8, 115u8, 111u8, 114u8, 102u8, 108u8, 111u8, 119u8],  // tensorflow
    ]
}

pub fn ai_vm_name_pattern_vec() -> (r: Vec<Vec<u8>>)
    ensures
        pats_match(r@, ai_vm_name_patterns()),
{
    let mut v: Vec<Vec<u8>> = Vec::new();
    let p0: Vec<u8> = vec![111u8, 108u8, 108u8, 97u8, 109u8, 97u8];  // ollama
    v.push(p0);
    let p1: Vec<u8> = vec![97u8, 105u8];  // ai
    v.push(p1);
    let p2: Vec<u8> = vec![109u8, 108u8];  // ml
    v.push(p2);
    let p3: Vec<u8> = vec![99u8, 117u8, 100u8, 97u8];  // cuda
    v.push(p3);
    let p4: Vec<u8> = vec![112u8, 121u8, 116u8, 111u8, 114u8, 99u8, 104u8];  // pytorch
    v.push(p4);
    let p5: Vec<u8> = vec![116u8, 101u8, 110u8, 115u8, 111u8, 114u8, 102u8, 108u8, 111u8, 119u8];  // tensorflow
    v.push(p5);
    proof {
        assert(v@[0]@ =~= ai_vm_name_patterns()[0]);
        assert(v@[1]@ =~= ai_vm_name_patterns()[1]);
        assert(v@[2]@ =~= ai_vm_name_patterns()[2]);
        assert(v@[3]@ =~= ai_vm_name_patterns()[3]);
        assert(v@[4]@ =~= ai_vm_name_patterns()[4]);
        assert(v@[5]@ =~= ai_vm_name_patterns()[5]);
    }
    v
}

pub open spec fn dev_vm_name_patterns() -> Seq<Seq<u8>> {
    seq![
        seq![100u8, 101u8, 118u8],  // dev
        seq![98u8, 117u8, 105u8, 108u8, 100u8],  // build
        seq![116u8, 101u8, 115u8, 116u8],  // test
        seq![108u8, 105u8, 110u8, 117u8, 120u8],  // linux
        seq![117u8, 98u8, 117u8, 110u8, 116u8, 117u8],  // ubuntu
        seq![102u8, 101u8, 100u8, 111u8, 114u8, 97u8],  // fedora
        seq![97u8, 114u8, 99u8, 104u8],  // arch
        seq![100u8, 101u8, 98u8, 105u8, 97u8, 110u8],  // debian
    ]
}

pub fn dev_vm_name_pattern_vec() -> (r: Vec<Vec<u8>>)
    ensures
        pats_match(r@, dev_vm_name_patterns()),
{
    let mut v: Vec<Vec<u8>> = Vec::new();
    let p0: Vec<u8> = vec![100u8, 101u8, 118u8];  // dev
    v.push(p0);
    let p1: Vec<u8> = vec![98u8, 117u8, 105u8, 108u8, 100u8];  // build
    v.push(p1);
    let p2: Vec<u8> = vec![116u8, 101u8, 115u8, 116u8];  // test
    v.push(p2);
    let p3: Vec<u8> = vec![108u8, 105u8, 110u8, 117u8, 120u8];  // linux
    v.push(p3);
    let p4: Vec<u8> = vec![117u8, 98u8, 117u8, 110u8, 116u8, 117u8];  // ubuntu
    v.push(p4);
    let p5: Vec<u8> = vec![102u8, 101u8, 100u8, 111u8, 114u8, 97u8];  // fedora
    v.push(p5);
    let p6: Vec<u8> = vec![97u8, 114u8, 99u8, 104u8];  // arch
    v.push(p6);
    let p7: Vec<u8> = vec![100u8, 101u8, 98u8, 105u8, 97u8, 110u8];  // debian
    v.push(p7);
    proof {
        assert(v@[0]@ =~= dev_vm_name_patterns()[0]);
        assert(v@[1]@ =~= dev_vm_name_patterns()[1]);
        assert(v@[2]@ =~= dev_vm_name_patterns()[2]);
        assert(v@[3]@ =~= dev_vm_name_patterns()[3]);
        assert(v@[4]@ =~= dev_vm_name_patterns()[4]);
        assert(v@[5]@ =~= dev_vm_name_patterns()[5]);
        assert(v@[6]@ =~= dev_vm_name_patterns()[6]);
        assert(v@[7]@ =~= dev_vm_name_patterns()[7]);
    }
    v
}

pub open spec fn gaming_vm_args_patterns() -> Seq<Seq<u8>> {
    seq![
        seq![105u8, 118u8, 115u8, 104u8, 109u8, 101u8, 109u8],  // ivshmem
        seq![108u8, 111u8, 111u8, 107u8, 105u8, 110u8, 103u8, 45u8, 103u8, 108u8, 97u8, 115u8, 115u8],  // looking-glass
    ]
}

pub fn gaming_vm_args_pattern_vec() -> (r: Vec<Vec<u8>>)
    ensures
        pats_match(r@, gaming_vm_args_patterns()),
{
    let mut v: Vec<Vec<u8>> = Vec::new();
    let p0: Vec<u8> = vec![105u8, 118u8, 115u8, 104u8, 109u8, 101u8, 109u8];  // ivshmem
    v.push(p0);
    let p1: Vec<u8> = vec![108u8, 111u8, 111u8, 107u8, 105u8, 110u8, 103u8, 45u8, 103u8, 108u8, 97u8, 115u8, 115u8];  // looking-glass
    v.push(p1);
    proof {
        assert(v@[0]@ =~= gaming_vm_args_patterns()[0]);
        assert(v@[1]@ =~= gaming_vm_args_patterns()[1]);
    }
    v
}

pub open spec fn gpu_thread_patterns() -> Seq<Seq<u8>> {
    seq![
        seq![118u8, 107u8],  // vk
        seq![118u8, 107u8, 116u8, 104u8, 114u8, 101u8, 97u8, 100u8],  // vkthread
        seq![118u8, 117u8, 108u8, 107u8, 97u8, 110u8],  // vulkan
        seq![103u8, 108u8],  // gl
        seq![103u8, 108u8, 116u8, 104u8, 114u8, 101u8, 97u8, 100u8],  // glthread
        seq![111u8, 112u8, 101u8, 110u8, 103u8, 108u8],  // opengl
        seq![110u8, 118u8, 105u8, 100u8, 105u8, 97u8],  // nvidia
        seq![110u8, 118u8, 95u8, 113u8, 117u8, 101u8, 117u8, 101u8],  // nv_queue
        seq![116u8, 104u8, 114u8, 101u8, 97u8, 100u8, 101u8, 100u8, 95u8, 103u8, 108u8],  // threaded_gl
        seq![100u8, 120u8, 118u8, 107u8],  // dxvk
        seq![118u8, 107u8, 100u8, 51u8, 100u8],  // vkd3d
    ]
}

pub fn gpu_thread_pattern_vec() -> (r: Vec<Vec<u8>>)
    ensures
        pats_match(r@, gpu_thread_patterns()),
{
    let mut v: Vec<Vec<u8>> = Vec::new();
    let p0: Vec<u8> = vec![118u8, 107u8];  // vk
    v.push(p0);
    let p1: Vec<u8> = vec![118u8, 107u8, 116u8, 104u8, 114u8, 101u8, 97u8, 100u8];  // vkthread
    v.push(p1);
    let p2: Vec<u8> = vec![118u8, 117u8, 108u8, 107u8, 97u8, 110u8];  // vulkan
    v.push(p2);
    let p3: Vec<u8> = vec![103u8, 108u8];  // gl
    v.push(p3);
    let p4: Vec<u8> = vec![103u8, 108u8, 116u8, 104u8, 114u8, 101u8, 97u8, 100u8];  // glthread
    v.push(p4);
    let p5: Vec<u8> = vec![111u8, 112u8, 101u8, 110u8, 103u8, 108u8];  // opengl
    v.push(p5);
    let p6: Vec<u8> = vec![110u8, 118u8, 105u8, 100u8, 105u8, 97u8];  // nvidia
    v.push(p6);
    let p7: Vec<u8> = vec![110u8, 118u8, 95u8, 113u8, 117u8, 101u8, 117u8, 101u8];  // nv_queue
    v.push(p7);
    let p8: Vec<u8> = vec![116u8, 104u8, 114u8, 101u8, 97u8, 100u8, 101u8, 100u8, 95u8, 103u8, 108u8];  // threaded_gl
    v.push(p8);
    let p9: Vec<u8> = vec![100u8, 120u8, 118u8, 107u8];  // dxvk
    v.push(p9);
    let p10: Vec<u8> = vec![118u8, 107u8, 100u8, 51u8, 100u8];  // vkd3d
    v.push(p10);
    proof {
        assert(v@[0]@ =~= gpu_thread_patterns()[0]);
        assert(v@[1]@ =~= gpu_thread_patterns()[1]);
        assert(v@[2]@ =~= gpu_thread_patterns()[2]);
        assert(v@[3]@ =~= gpu_thread_patterns()[3]);
        assert(v@[4]@ =~= gpu_thread_patterns()[4]);
        assert(v@[5]@ =~= gpu_thread_patterns()[5]);
        assert(v@[6]@ =~= gpu_thread_patterns()[6]);
        assert(v@[7]@ =~= gpu_thread_patterns()[7]);
        assert(v@[8]@ =~= gpu_thread_patterns()[8]);
        assert(v@[9]@ =~= gpu_thread_patterns()[9]);
        assert(v@[10]@ =~= gpu_thread_patterns()[10]);
    }
    v
}

pub open spec fn x3d_model_patterns() -> Seq<Seq<u8>> {
    seq![
        seq![55u8, 56u8, 48u8, 48u8, 88u8, 51u8, 68u8],  // 7800X3D
        seq![55u8, 57u8, 48u8, 48u8, 88u8, 51u8, 68u8],  // 7900X3D
        seq![55u8, 57u8, 53u8, 48u8, 88u8, 51u8, 68u8],  // 7950X3D
        seq![57u8, 56u8, 48u8, 48u8, 88u8, 51u8, 68u8],  // 9800X3D
        seq![57u8, 57u8, 48u8, 48u8, 88u8, 51u8, 68u8],  // 9900X3D
        seq![57u8, 57u8, 53u8, 48u8, 88u8, 51u8, 68u8],  // 9950X3D
    ]
}

pub fn x3d_model_pattern_vec() -> (r: Vec<Vec<u8>>)
    ensures
        pats_match(r@, x3d_model_patterns()),
{
    let mut v: Vec<Vec<u8>> = Vec::new();
    let p0: Vec<u8> = vec![55u8, 56u8, 48u8, 48u8, 88u8, 51u8, 68u8];  // 7800X3D
    v.push(p0);
    let p1: Vec<u8> = vec![55u8, 57u8, 48u8, 48u8, 88u8, 51u8, 68u8];  // 7900X3D
    v.push(p1);
    let p2: Vec<u8> = vec![55u8, 57u8, 53u8, 48u8, 88u8, 51u8, 68u8];  // 7950X3D
    v.push(p2);
    let p3: Vec<u8> = vec![57u8, 56u8, 48u8, 48u8, 88u8, 51u8, 68u8];  // 9800X3D
    v.push(p3);
    let p4: Vec<u8> = vec![57u8, 57u8, 48u8, 48u8, 88u8, 51u8, 68u8];  // 9900X3D
    v.push(p4);
    let p5: Vec<u8> = vec![57u8, 57u8, 53u8, 48u8, 88u8, 51u8, 68u8];  // 9950X3D
    v.push(p5);
    proof {
        assert(v@[0]@ =~= x3d_model_patterns()[0]);
        assert(v@[1]@ =~= x3d_model_patterns()[1]);
        assert(v@[2]@ =~= x3d_model_patterns()[2]);
        assert(v@[3]@ =~= x3d_model_patterns()[3]);
        assert(v@[4]@ =~= x3d_model_patterns()[4]);
        assert(v@[5]@ =~= x3d_model_patterns()[5]);
    }
    v
}

pub open spec fn ai_exe_strict_patterns() -> Seq<Seq<u8>> {
    seq![
        seq![111u8, 108u8, 108u8, 97u8, 109u8, 97u8],  // ollama
        seq![108u8, 108u8, 97u8, 109u8, 97u8],  // llama
        seq![112u8, 121u8, 116u8, 111u8, 114u8, 99u8, 104u8],  // pytorch
    ]
}

pub fn ai_exe_strict_pattern_vec() -> (r: Vec<Vec<u8>>)
    ensures
        pats_match(r@, ai_exe_strict_patterns()),
{
    let mut v: Vec<Vec<u8>> = Vec::new();
    let p0: Vec<u8> = vec![111u8, 108u8, 108u8, 97u8, 109u8, 97u8];  // ollama
    v.push(p0);
    let p1: Vec<u8> = vec![108u8, 108u8, 97u8, 109u8, 97u8];  // llama
    v.push(p1);
    let p2: Vec<u8> = vec![112u8, 121u8, 116u8, 111u8, 114u8, 99u8, 104u8];  // pytorch
    v.push(p2);
    proof {
        assert(v@[0]@ =~= ai_exe_strict_patterns()[0]);
        assert(v@[1]@ =~= ai_exe_strict_patterns()[1]);
        assert(v@[2]@ =~= ai_exe_strict_patterns()[2]);
    }
    v
}
} // verus!