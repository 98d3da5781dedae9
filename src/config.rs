use vstd::prelude::*;

verus! {

/// Connection settings of the transport client.
#[derive(Clone, Debug, PartialEq)]
pub struct MqttSettings {
    pub address: String,
    pub client_id: String,
    pub mqtt_topic: Vec<String>,
    pub mqtt_qos: Vec<i32>,
    pub will_message: String,
    pub will_topic: String,
    pub user: String,
    pub pwd: String,
}

impl Default for MqttSettings {
    /// A local broker, subscribed to every topic at QoS 1.
    fn default() -> (r: MqttSettings)
        ensures
            r.address@ == "tcp://127.0.0.1:1883"@,
            r.client_id@ == "test_client"@,
            r.mqtt_topic@.len() == 1,
            r.mqtt_topic@[0]@ == "#/"@,
            r.mqtt_qos@ == seq![1i32],
            r.will_message@ == "Bridge node has failed"@,
            r.will_topic@ == "test/dead"@,
            r.user@ == "test"@,
            r.pwd@ == "super"@,
    {
        MqttSettings {
            address: "tcp://127.0.0.1:1883".to_owned(),
            client_id: "test_client".to_owned(),
            mqtt_topic: vec!["#/".to_owned()],
            mqtt_qos: vec![1],
            will_message: "Bridge node has failed".to_owned(),
            will_topic: "test/dead".to_owned(),
            user: "test".to_owned(),
            pwd: "super".to_owned(),
        }
    }
}

/// Settings of the whole service.
#[derive(Clone, Debug, PartialEq)]
pub struct StatsSettings {
    pub mqtt_settings: MqttSettings,
}

impl Default for StatsSettings {
    /// A local broker, subscribed to every topic at QoS 1, with its own
    /// last-will topic.
    fn default() -> (r: StatsSettings)
        ensures
            r.mqtt_settings.address@ == "tcp://127.0.0.1:1883"@,
            r.mqtt_settings.client_id@ == "test_client"@,
            r.mqtt_settings.mqtt_topic@.len() == 1,
            r.mqtt_settings.mqtt_topic@[0]@ == "#"@,
            r.mqtt_settings.mqtt_qos@ == seq![1i32],
            r.mqtt_settings.will_message@ == "Bridge node has failed"@,
            r.mqtt_settings.will_topic@ == "bridge/dead"@,
            r.mqtt_settings.user@ == "test"@,
            r.mqtt_settings.pwd@ == "super"@,
    {
        StatsSettings {
            mqtt_settings: MqttSettings {
                address: "tcp://127.0.0.1:1883".to_owned(),
                client_id: "test_client".to_owned(),
                mqtt_topic: vec!["#".to_owned()],
                mqtt_qos: vec![1],
                will_message: "Bridge node has failed".to_owned(),
                will_topic: "bridge/dead".to_owned(),
                user: "test".to_owned(),
                pwd: "super".to_owned(),
            },
        }
    }
}

} // verus!
